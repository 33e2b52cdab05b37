//! How names are written: their text form (as in messages), and the name
//! under which LLVM is given a value or a block when it is built.

use vstd::prelude::*;
use vstd::string::StringExecFns;
use crate::ir::Name;

verus! {

/// The decimal digit for `d`, where `d < 10`.
pub open spec fn digit(d: nat) -> char {
    if d == 0 {
        '0'
    } else if d == 1 {
        '1'
    } else if d == 2 {
        '2'
    } else if d == 3 {
        '3'
    } else if d == 4 {
        '4'
    } else if d == 5 {
        '5'
    } else if d == 6 {
        '6'
    } else if d == 7 {
        '7'
    } else if d == 8 {
        '8'
    } else {
        '9'
    }
}

/// The decimal numeral of `n`, without leading zeros.
pub open spec fn decimal(n: nat) -> Seq<char>
    decreases n,
{
    if n < 10 {
        seq![digit(n)]
    } else {
        decimal(n / 10).push(digit(n % 10))
    }
}

/// The text form of a name: `%` followed by its text or its number.
pub open spec fn name_text(n: Name) -> Seq<char> {
    match n {
        Name::Name(s) => seq!['%'] + s@,
        Name::Number(k) => seq!['%'] + decimal(k as nat),
    }
}

/// The name under which a value or a block is built: a text name as it
/// is; a numbered (unnamed) value gets the empty name, and LLVM numbers it.
pub open spec fn built_name(n: Name) -> Seq<char> {
    match n {
        Name::Name(s) => s@,
        Name::Number(_) => Seq::empty(),
    }
}

fn digit_str(d: usize) -> (r: &'static str)
    requires
        d < 10,
    ensures
        r@ == seq![digit(d as nat)],
{
    if d == 0 {
        proof { reveal_strlit("0"); }
        assert("0"@ =~= seq!['0']);
        "0"
    } else if d == 1 {
        proof { reveal_strlit("1"); }
        assert("1"@ =~= seq!['1']);
        "1"
    } else if d == 2 {
        proof { reveal_strlit("2"); }
        assert("2"@ =~= seq!['2']);
        "2"
    } else if d == 3 {
        proof { reveal_strlit("3"); }
        assert("3"@ =~= seq!['3']);
        "3"
    } else if d == 4 {
        proof { reveal_strlit("4"); }
        assert("4"@ =~= seq!['4']);
        "4"
    } else if d == 5 {
        proof { reveal_strlit("5"); }
        assert("5"@ =~= seq!['5']);
        "5"
    } else if d == 6 {
        proof { reveal_strlit("6"); }
        assert("6"@ =~= seq!['6']);
        "6"
    } else if d == 7 {
        proof { reveal_strlit("7"); }
        assert("7"@ =~= seq!['7']);
        "7"
    } else if d == 8 {
        proof { reveal_strlit("8"); }
        assert("8"@ =~= seq!['8']);
        "8"
    } else {
        proof { reveal_strlit("9"); }
        assert("9"@ =~= seq!['9']);
        "9"
    }
}

/// Appends the decimal numeral of `n`.
fn push_decimal(s: &mut String, n: usize)
    ensures
        final(s)@ == old(s)@ + decimal(n as nat),
    decreases n,
{
    if n >= 10 {
        push_decimal(s, n / 10);
    }
    s.append(digit_str(n % 10));
    assert(final(s)@ =~= old(s)@ + decimal(n as nat));
}

impl Name {
    /// The text form of this name.
    pub fn text(&self) -> (r: String)
        ensures
            r@ == name_text(*self),
    {
        let mut s = String::new();
        proof { reveal_strlit("%"); }
        s.append("%");
        match self {
            Name::Name(t) => s.append((**t).as_str()),
            Name::Number(k) => push_decimal(&mut s, *k),
        }
        assert(s@ =~= name_text(*self));
        s
    }

    /// The name under which the value or block of this name is built.
    pub fn llvm_name(&self) -> (r: String)
        ensures
            r@ == built_name(*self),
    {
        match self {
            Name::Name(t) => (**t).clone(),
            Name::Number(_) => String::new(),
        }
    }
}

} // verus!
