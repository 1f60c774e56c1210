//! The runtime value model: what evaluating an expression or statement yields.
use vstd::prelude::*;

verus! {

/// The result of evaluating an expression or statement: a 32-bit signed
/// number, or the unit value produced by definitions and by an empty block.
#[derive(Debug, Clone, Copy, PartialEq, Eq, Structural)]
pub enum Val {
    Number(i32),
    Unit,
}

/// The decimal digit character for `d`, which must lie in `0..10`.
pub open spec fn digit_char_of(d: int) -> char {
    if d == 0 {
        '0'
    } else if d == 1 {
        '1'
    } else if d == 2 {
        '2'
    } else if d == 3 {
        '3'
    } else if d == 4 {
        '4'
    } else if d == 5 {
        '5'
    } else if d == 6 {
        '6'
    } else if d == 7 {
        '7'
    } else if d == 8 {
        '8'
    } else {
        '9'
    }
}

/// The decimal digits of `n`, most significant first.
pub open spec fn nat_text(n: nat) -> Seq<char>
    decreases n,
{
    if n < 10 {
        seq![digit_char_of(n as int)]
    } else {
        nat_text(n / 10).push(digit_char_of((n % 10) as int))
    }
}

/// The decimal rendering of `i`, with a leading `-` when `i` is negative.
pub open spec fn int_text(i: int) -> Seq<char> {
    if i < 0 {
        seq!['-'] + nat_text((-i) as nat)
    } else {
        nat_text(i as nat)
    }
}

/// The textual rendering of a value: a number as its decimal digits, the
/// unit value as the literal text `Unit`.
pub open spec fn val_text(v: Val) -> Seq<char> {
    match v {
        Val::Number(n) => int_text(n as int),
        Val::Unit => "Unit"@,
    }
}

fn digit_text(d: u32) -> (r: &'static str)
    requires
        d < 10,
    ensures
        r@ =~= seq![digit_char_of(d as int)],
{
    proof {
        reveal_strlit("0");
        reveal_strlit("1");
        reveal_strlit("2");
        reveal_strlit("3");
        reveal_strlit("4");
        reveal_strlit("5");
        reveal_strlit("6");
        reveal_strlit("7");
        reveal_strlit("8");
        reveal_strlit("9");
    }
    match d {
        0 => "0",
        1 => "1",
        2 => "2",
        3 => "3",
        4 => "4",
        5 => "5",
        6 => "6",
        7 => "7",
        8 => "8",
        _ => "9",
    }
}

fn nat_to_text(n: u32) -> (r: String)
    ensures
        r@ == nat_text(n as nat),
    decreases n,
{
    if n < 10 {
        String::from_str(digit_text(n))
    } else {
        let mut s = nat_to_text(n / 10);
        s.append(digit_text(n % 10));
        proof {
            assert(nat_text((n / 10) as nat) + seq![digit_char_of((n % 10) as int)] =~= nat_text(
                (n / 10) as nat,
            ).push(digit_char_of((n % 10) as int)));
        }
        s
    }
}

impl Val {
    /// The textual rendering of this value, as `val_text` states it.
    pub fn to_text(&self) -> (r: String)
        ensures
            r@ == val_text(*self),
    {
        match self {
            Val::Number(n) => {
                if *n >= 0 {
                    nat_to_text(*n as u32)
                } else {
                    let mut s = String::from_str("-");
                    let m: u32 = (-(*n as i64)) as u32;
                    let t = nat_to_text(m);
                    s.append(t.as_str());
                    proof {
                        reveal_strlit("-");
                        assert("-"@ =~= seq!['-']);
                    }
                    s
                }
            },
            Val::Unit => String::from_str("Unit"),
        }
    }
}

} // verus!
