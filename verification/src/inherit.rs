use crate::model::Inherits;
use vstd::prelude::*;
use vstd::string::StrSliceExecFns;

verus! {

/// The pieces of `s` between its dots, in order.  A string without dots is
/// one piece; every dot ends a piece, so a trailing dot yields a final empty
/// piece.
pub open spec fn split_dots_model(s: Seq<char>) -> Seq<Seq<char>>
    decreases s.len(),
{
    if s.len() == 0 {
        seq![Seq::<char>::empty()]
    } else {
        let pre = split_dots_model(s.drop_last());
        if s.last() == '.' {
            pre.push(Seq::<char>::empty())
        } else {
            pre.update(pre.len() - 1, pre.last().push(s.last()))
        }
    }
}

/// A split has at least one piece.
proof fn lemma_split_dots_model_len(s: Seq<char>)
    ensures
        split_dots_model(s).len() >= 1,
    decreases s.len(),
{
    if s.len() > 0 {
        lemma_split_dots_model_len(s.drop_last());
    }
}

/// Splits `s` at every dot.
pub fn split_dots(s: &str) -> (r: Vec<String>)
    ensures
        r.deep_view() == split_dots_model(s@),
{
    let n = s.unicode_len();
    let mut r: Vec<String> = Vec::new();
    let mut start: usize = 0;
    let mut i: usize = 0;
    proof {
        assert(split_dots_model(s@.take(0)) =~~= Seq::<Seq<char>>::empty().push(
            s@.subrange(0, 0),
        ));
    }
    while i < n
        invariant
            start <= i <= n,
            n == s@.len(),
            split_dots_model(s@.take(i as int)) == r.deep_view().push(
                s@.subrange(start as int, i as int),
            ),
        decreases n - i,
    {
        let ghost pre = split_dots_model(s@.take(i as int));
        let c = s.get_char(i);
        proof {
            assert(s@.take(i + 1).drop_last() =~= s@.take(i as int));
            assert(s@.take(i + 1).last() == s@[i as int]);
            lemma_split_dots_model_len(s@.take(i as int));
        }
        if c == '.' {
            let piece = s.substring_char(start, i).to_owned();
            r.push(piece);
            start = i + 1;
            proof {
                assert(split_dots_model(s@.take(i + 1)) =~~= r.deep_view().push(
                    s@.subrange(i + 1, i + 1),
                ));
            }
        } else {
            proof {
                assert(pre.update(pre.len() - 1, pre.last().push(s@[i as int]))
                    =~~= r.deep_view().push(s@.subrange(start as int, i + 1)));
            }
        }
        i = i + 1;
    }
    let piece = s.substring_char(start, n).to_owned();
    r.push(piece);
    proof {
        assert(s@.take(n as int) =~= s@);
        assert(r.deep_view() =~~= split_dots_model(s@));
    }
    r
}

/// Builds the inheritance target from an already-split `MODULE.EXCEPTION`
/// designation of exactly two pieces: the originating module first, the
/// exception class second.
pub fn get_inherit_spec(parts: &Vec<String>) -> (r: Inherits)
    requires
        parts@.len() == 2,
    ensures
        r@.module == Some(parts@[0]@),
        r@.exception == parts@[1]@,
{
    Inherits { module: Some(parts[0].clone()), exception: parts[1].clone() }
}

/// Inheritance target used when the base designation names none: the
/// runtime's root exception class, which needs no extra import.
pub fn get_default_inherit_spec() -> (r: Inherits)
    ensures
        r@.module is None,
        r@.exception == "PyException"@,
{
    Inherits { module: None, exception: "PyException".to_owned() }
}

} // verus!
