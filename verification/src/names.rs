use vstd::prelude::*;
use vstd::string::StringExecFns;

verus! {

/// The character for one decimal digit.
pub open spec fn digit_char(d: nat) -> char {
    if d == 0 {
        '0'
    } else if d == 1 {
        '1'
    } else if d == 2 {
        '2'
    } else if d == 3 {
        '3'
    } else if d == 4 {
        '4'
    } else if d == 5 {
        '5'
    } else if d == 6 {
        '6'
    } else if d == 7 {
        '7'
    } else if d == 8 {
        '8'
    } else {
        '9'
    }
}

/// The decimal notation of `n`, most significant digit first, no sign and no
/// leading zero (except for `n == 0` itself).
pub open spec fn dec_digits(n: nat) -> Seq<char>
    decreases n,
{
    if n < 10 {
        seq![digit_char(n)]
    } else {
        dec_digits(n / 10).push(digit_char(n % 10))
    }
}

/// The name of the binder that stands for field `i` of a tuple variant in the
/// generated match arm.
pub open spec fn arg_binder(i: nat) -> Seq<char> {
    seq!['a', 'r', 'g'] + dec_digits(i)
}

/// The binder names for all `n` fields of a tuple variant, in field order.
pub open spec fn arg_binders(n: nat) -> Seq<Seq<char>> {
    Seq::new(n, |i: int| arg_binder(i as nat))
}

fn digit_str(d: usize) -> (r: &'static str)
    requires
        d < 10,
    ensures
        r@ =~= seq![digit_char(d as nat)],
{
    proof {
        reveal_strlit("0");
        reveal_strlit("1");
        reveal_strlit("2");
        reveal_strlit("3");
        reveal_strlit("4");
        reveal_strlit("5");
        reveal_strlit("6");
        reveal_strlit("7");
        reveal_strlit("8");
        reveal_strlit("9");
    }
    if d == 0 {
        "0"
    } else if d == 1 {
        "1"
    } else if d == 2 {
        "2"
    } else if d == 3 {
        "3"
    } else if d == 4 {
        "4"
    } else if d == 5 {
        "5"
    } else if d == 6 {
        "6"
    } else if d == 7 {
        "7"
    } else if d == 8 {
        "8"
    } else {
        "9"
    }
}

/// Appends the decimal notation of `n` to `s`.
pub fn push_decimal(s: &mut String, n: usize)
    ensures
        final(s)@ == old(s)@ + dec_digits(n as nat),
    decreases n,
{
    if n < 10 {
        s.append(digit_str(n));
        proof {
            assert(s@ =~= old(s)@ + dec_digits(n as nat));
        }
    } else {
        push_decimal(s, n / 10);
        s.append(digit_str(n % 10));
        proof {
            assert(s@ =~= old(s)@ + dec_digits(n as nat));
        }
    }
}

/// The binder name for field `i` of a tuple variant.
pub fn arg_name(i: usize) -> (r: String)
    ensures
        r@ == arg_binder(i as nat),
{
    let mut s = "arg".to_owned();
    proof {
        reveal_strlit("arg");
        assert(s@ =~= seq!['a', 'r', 'g']);
    }
    push_decimal(&mut s, i);
    s
}

/// The binder names for all `n` fields of a tuple variant.
pub fn arg_names(n: usize) -> (r: Vec<String>)
    ensures
        r.deep_view() == arg_binders(n as nat),
{
    let mut r: Vec<String> = Vec::new();
    let mut i: usize = 0;
    while i < n
        invariant
            i <= n,
            r@.len() == i,
            forall|j: int| 0 <= j < i ==> r@[j]@ == arg_binder(j as nat),
        decreases n - i,
    {
        r.push(arg_name(i));
        i = i + 1;
    }
    proof {
        assert(r.deep_view() =~= arg_binders(n as nat));
    }
    r
}

} // verus!
