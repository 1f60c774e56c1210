//! Character-class based scanning of the remaining input: each primitive
//! either succeeds with `(remainder, matched_text)` or fails with a
//! descriptive message, and never consumes input on failure.
use vstd::prelude::*;

verus! {

/// An ASCII decimal digit.
pub open spec fn digit_char(c: char) -> bool {
    '0' <= c && c <= '9'
}

/// An ASCII letter, the only characters an identifier may start with.
pub open spec fn ascii_alpha_char(c: char) -> bool {
    ('a' <= c && c <= 'z') || ('A' <= c && c <= 'Z')
}

/// An ASCII letter or digit.
pub open spec fn ascii_word_char(c: char) -> bool {
    digit_char(c) || ascii_alpha_char(c)
}

/// Whether a character beyond ASCII belongs to a Unicode letter or number
/// category; left abstract, `char::is_alphanumeric` decides it at run time.
pub uninterp spec fn unicode_word_char(c: char) -> bool;

/// A character that may continue an identifier: an alphanumeric character.
pub open spec fn word_char(c: char) -> bool {
    if c <= '\u{7f}' {
        ascii_word_char(c)
    } else {
        unicode_word_char(c)
    }
}

/// A character with the Unicode `White_Space` property.
pub open spec fn white_char(c: char) -> bool {
    c == ' ' || c == '\t' || c == '\n' || c == '\r' || c == '\u{0b}' || c == '\u{0c}' || c
        == '\u{85}' || c == '\u{a0}' || c == '\u{1680}' || ('\u{2000}' <= c && c <= '\u{200a}') || c
        == '\u{2028}' || c == '\u{2029}' || c == '\u{202f}' || c == '\u{205f}' || c == '\u{3000}'
}

/// Decides `digit_char`.
pub fn is_digit_char(c: char) -> (b: bool)
    ensures
        b == digit_char(c),
{
    '0' <= c && c <= '9'
}

/// Decides `ascii_alpha_char`.
pub fn is_ascii_alpha_char(c: char) -> (b: bool)
    ensures
        b == ascii_alpha_char(c),
{
    ('a' <= c && c <= 'z') || ('A' <= c && c <= 'Z')
}

/// Relies on `char::is_alphanumeric` to classify characters beyond ASCII,
/// where the Unicode tables cannot reasonably be restated here; the result
/// depends on the character alone.
#[verifier::external_body]
fn alphanumeric_char_beyond_ascii(c: char) -> (b: bool)
    requires
        c > '\u{7f}',
    ensures
        b == unicode_word_char(c),
{
    c.is_alphanumeric()
}

/// Decides `word_char`: ASCII characters are classified directly, the rest
/// by the Unicode alphanumeric categories.
pub fn is_word_char(c: char) -> (b: bool)
    ensures
        b == word_char(c),
{
    if c <= '\u{7f}' {
        is_digit_char(c) || is_ascii_alpha_char(c)
    } else {
        alphanumeric_char_beyond_ascii(c)
    }
}

/// Decides `white_char`.
pub fn is_white_char(c: char) -> (b: bool)
    ensures
        b == white_char(c),
{
    c == ' ' || c == '\t' || c == '\n' || c == '\r' || c == '\u{0b}' || c == '\u{0c}' || c
        == '\u{85}' || c == '\u{a0}' || c == '\u{1680}' || ('\u{2000}' <= c && c <= '\u{200a}') || c
        == '\u{2028}' || c == '\u{2029}' || c == '\u{202f}' || c == '\u{205f}' || c == '\u{3000}'
}

/// The length of the maximal prefix of `s` whose characters all satisfy `p`.
pub open spec fn prefix_len(p: spec_fn(char) -> bool, s: Seq<char>) -> nat
    decreases s.len(),
{
    if s.len() == 0 || !p(s[0]) {
        0
    } else {
        1 + prefix_len(p, s.skip(1))
    }
}

/// What `prefix_len` finds: a prefix of satisfying characters, ended by the
/// end of the input or by the first character that does not satisfy `p`.
pub proof fn lemma_prefix_len(p: spec_fn(char) -> bool, s: Seq<char>)
    ensures
        prefix_len(p, s) <= s.len(),
        forall|i: int| 0 <= i < prefix_len(p, s) ==> p(s[i]),
        prefix_len(p, s) < s.len() ==> !p(s[prefix_len(p, s) as int]),
    decreases s.len(),
{
    if s.len() == 0 || !p(s[0]) {
    } else {
        lemma_prefix_len(p, s.skip(1));
        assert forall|i: int| 0 <= i < prefix_len(p, s) implies p(s[i]) by {
            if i > 0 {
                assert(p(s.skip(1)[i - 1]));
            }
        }
    }
}

/// Any position bounded by satisfying characters and ended as `prefix_len`
/// ends is the prefix length.
pub proof fn lemma_prefix_len_is(p: spec_fn(char) -> bool, s: Seq<char>, n: int)
    requires
        0 <= n <= s.len(),
        forall|i: int| 0 <= i < n ==> p(s[i]),
        n < s.len() ==> !p(s[n]),
    ensures
        prefix_len(p, s) == n,
    decreases s.len(),
{
    if s.len() == 0 || !p(s[0]) {
    } else {
        assert forall|i: int| 0 <= i < n - 1 implies p(s.skip(1)[i]) by {
            assert(p(s[i + 1]));
        }
        lemma_prefix_len_is(p, s.skip(1), n - 1);
    }
}

/// The split of `s` at the end of the maximal prefix satisfying `p`:
/// `(remainder, extracted)`.
pub open spec fn spec_take_while(p: spec_fn(char) -> bool, s: Seq<char>) -> (Seq<char>, Seq<char>) {
    (s.skip(prefix_len(p, s) as int), s.take(prefix_len(p, s) as int))
}

/// Like `spec_take_while`, but an empty match is the failure `err`.
pub open spec fn spec_take_while_err(p: spec_fn(char) -> bool, s: Seq<char>, err: Seq<char>) -> Result<
    (Seq<char>, Seq<char>),
    Seq<char>,
> {
    if prefix_len(p, s) == 0 {
        Err(err)
    } else {
        Ok(spec_take_while(p, s))
    }
}

/// Splits `s` after its maximal prefix of characters accepted by `accept`,
/// returning `(remainder, extracted)`; always succeeds, possibly with an
/// empty match. The ghost predicate `p` names what `accept` decides.
pub fn take_while<F: Fn(char) -> bool>(
    accept: F,
    s: &str,
    Ghost(p): Ghost<spec_fn(char) -> bool>,
) -> (r: (&str, &str))
    requires
        forall|c: char| #[trigger] accept.requires((c,)),
        forall|c: char, b: bool| accept.ensures((c,), b) ==> b == p(c),
    ensures
        r.0@ == spec_take_while(p, s@).0,
        r.1@ == spec_take_while(p, s@).1,
{
    let len: usize = s.unicode_len();
    let mut i: usize = 0;
    let mut more = true;
    while more && i < len
        invariant
            0 <= i <= len,
            len == s@.len(),
            forall|j: int| 0 <= j < i ==> p(s@[j]),
            !more ==> i < len && !p(s@[i as int]),
            forall|c: char| #[trigger] accept.requires((c,)),
            forall|c: char, b: bool| accept.ensures((c,), b) ==> b == p(c),
        decreases len - i + (if more { 1int } else { 0int }),
    {
        let c = s.get_char(i);
        if accept(c) {
            i += 1;
        } else {
            more = false;
        }
    }
    proof {
        lemma_prefix_len_is(p, s@, i as int);
    }
    let rem = s.substring_char(i, len);
    let ext = s.substring_char(0, i);
    proof {
        assert(rem@ =~= spec_take_while(p, s@).0);
        assert(ext@ =~= spec_take_while(p, s@).1);
    }
    (rem, ext)
}

/// `take_while`, except that matching nothing fails with `err_msg`.
pub fn take_while_err<F: Fn(char) -> bool>(
    accept: F,
    s: &str,
    err_msg: String,
    Ghost(p): Ghost<spec_fn(char) -> bool>,
) -> (r: Result<(&str, &str), String>)
    requires
        forall|c: char| #[trigger] accept.requires((c,)),
        forall|c: char, b: bool| accept.ensures((c,), b) ==> b == p(c),
    ensures
        match r {
            Ok(t) => spec_take_while_err(p, s@, err_msg@) == Ok::<(Seq<char>, Seq<char>), Seq<char>>(
                (t.0@, t.1@),
            ),
            Err(m) => spec_take_while_err(p, s@, err_msg@) == Err::<
                (Seq<char>, Seq<char>),
                Seq<char>,
            >(m@),
        },
{
    let (rem, ext) = take_while(accept, s, Ghost(p));
    proof {
        lemma_prefix_len(p, s@);
    }
    if ext.is_empty() {
        Err(err_msg)
    } else {
        Ok((rem, ext))
    }
}

/// `take-while` specialized to ASCII digits; fails with `expected digits`
/// when no digit is present.
pub open spec fn spec_extract_digits(s: Seq<char>) -> Result<(Seq<char>, Seq<char>), Seq<char>> {
    spec_take_while_err(|c: char| digit_char(c), s, "expected digits"@)
}

/// Splits off the maximal prefix of ASCII digits, `(remainder, digits)`.
pub fn extract_digits(s: &str) -> (r: Result<(&str, &str), String>)
    ensures
        match r {
            Ok(t) => spec_extract_digits(s@) == Ok::<(Seq<char>, Seq<char>), Seq<char>>(
                (t.0@, t.1@),
            ),
            Err(m) => spec_extract_digits(s@) == Err::<(Seq<char>, Seq<char>), Seq<char>>(m@),
        },
{
    let accept = |c: char| -> (b: bool)
        ensures
            b == digit_char(c),
        { is_digit_char(c) };
    take_while_err(accept, s, String::from_str("expected digits"), Ghost(|c: char| digit_char(c)))
}

/// `take-while` specialized to the space character; fails with
/// `expected a space` when no space is present.
pub open spec fn spec_extract_whitespace(s: Seq<char>) -> Result<(Seq<char>, Seq<char>), Seq<char>> {
    spec_take_while_err(|c: char| c == ' ', s, "expected a space"@)
}

/// Splits off the maximal prefix of space characters, requiring at least one.
pub fn extract_whitespace(s: &str) -> (r: Result<(&str, &str), String>)
    ensures
        match r {
            Ok(t) => spec_extract_whitespace(s@) == Ok::<(Seq<char>, Seq<char>), Seq<char>>(
                (t.0@, t.1@),
            ),
            Err(m) => spec_extract_whitespace(s@) == Err::<(Seq<char>, Seq<char>), Seq<char>>(m@),
        },
{
    let accept = |c: char| -> (b: bool)
        ensures
            b == (c == ' '),
        { c == ' ' };
    take_while_err(accept, s, String::from_str("expected a space"), Ghost(|c: char| c == ' '))
}

/// Consumes any prefix of Unicode whitespace; never fails.
pub open spec fn spec_skip_whitespace(s: Seq<char>) -> (Seq<char>, Seq<char>) {
    spec_take_while(|c: char| white_char(c), s)
}

/// Splits off any prefix of Unicode whitespace, `(remainder, skipped)`.
pub fn skip_whitespace(s: &str) -> (r: (&str, &str))
    ensures
        r.0@ == spec_skip_whitespace(s@).0,
        r.1@ == spec_skip_whitespace(s@).1,
{
    let accept = |c: char| -> (b: bool)
        ensures
            b == white_char(c),
        { is_white_char(c) };
    take_while(accept, s, Ghost(|c: char| white_char(c)))
}

/// An identifier: one ASCII letter, then any run of alphanumeric
/// characters; anything else fails with `expected identifier`.
pub open spec fn spec_extract_ident(s: Seq<char>) -> Result<(Seq<char>, Seq<char>), Seq<char>> {
    if s.len() > 0 && ascii_alpha_char(s[0]) {
        Ok(spec_take_while(|c: char| word_char(c), s))
    } else {
        Err("expected identifier"@)
    }
}

/// Splits off an identifier, `(remainder, identifier)`.
pub fn extract_ident(s: &str) -> (r: Result<(&str, &str), String>)
    ensures
        match r {
            Ok(t) => spec_extract_ident(s@) == Ok::<(Seq<char>, Seq<char>), Seq<char>>(
                (t.0@, t.1@),
            ),
            Err(m) => spec_extract_ident(s@) == Err::<(Seq<char>, Seq<char>), Seq<char>>(m@),
        },
{
    let starts_alphabetic = if s.is_empty() {
        false
    } else {
        is_ascii_alpha_char(s.get_char(0))
    };
    if starts_alphabetic {
        let accept = |c: char| -> (b: bool)
            ensures
                b == word_char(c),
            { is_word_char(c) };
        Ok(take_while(accept, s, Ghost(|c: char| word_char(c))))
    } else {
        Err(String::from_str("expected identifier"))
    }
}

/// Strips the literal `t` from the front of `s`, or fails with
/// `expected {t}`.
pub open spec fn spec_tag(t: Seq<char>, s: Seq<char>) -> Result<Seq<char>, Seq<char>> {
    if t.len() <= s.len() && s.take(t.len() as int) == t {
        Ok(s.skip(t.len() as int))
    } else {
        Err("expected "@ + t)
    }
}

/// Strips the literal `starting_text` from the front of `s`.
pub fn tag<'a, 'b>(starting_text: &'a str, s: &'b str) -> (r: Result<&'b str, String>)
    ensures
        match r {
            Ok(rem) => spec_tag(starting_text@, s@) == Ok::<Seq<char>, Seq<char>>(rem@),
            Err(m) => spec_tag(starting_text@, s@) == Err::<Seq<char>, Seq<char>>(m@),
        },
{
    let tl: usize = starting_text.unicode_len();
    let sl: usize = s.unicode_len();
    if tl > sl {
        let mut m = String::from_str("expected ");
        m.append(starting_text);
        return Err(m);
    }
    let mut i: usize = 0;
    while i < tl
        invariant
            0 <= i <= tl <= sl,
            tl == starting_text@.len(),
            sl == s@.len(),
            forall|j: int| 0 <= j < i ==> s@[j] == starting_text@[j],
        decreases tl - i,
    {
        if s.get_char(i) != starting_text.get_char(i) {
            proof {
                assert(s@.take(tl as int)[i as int] != starting_text@[i as int]);
            }
            let mut m = String::from_str("expected ");
            m.append(starting_text);
            return Err(m);
        }
        i += 1;
    }
    proof {
        assert(s@.take(tl as int) =~= starting_text@);
    }
    Ok(s.substring_char(tl, sl))
}

/// Whether two string slices hold the same characters.
pub fn str_eq(a: &str, b: &str) -> (r: bool)
    ensures
        r == (a@ == b@),
{
    let al: usize = a.unicode_len();
    let bl: usize = b.unicode_len();
    if al != bl {
        return false;
    }
    let mut i: usize = 0;
    while i < al
        invariant
            0 <= i <= al,
            al == a@.len(),
            al == b@.len(),
            forall|j: int| 0 <= j < i ==> a@[j] == b@[j],
        decreases al - i,
    {
        if a.get_char(i) != b.get_char(i) {
            return false;
        }
        i += 1;
    }
    proof {
        assert(a@ =~= b@);
    }
    true
}

} // verus!
