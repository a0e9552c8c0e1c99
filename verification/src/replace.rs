//! Substring replacement (`str::replace`) over character sequences.
use vstd::prelude::*;
use crate::text::{append_chars, chars_of, occurs_at_exec};

verus! {

/// `to` before every character, and once more at the end: what an empty
/// pattern's replacement gives (it matches at every character boundary).
pub open spec fn interleave(s: Seq<char>, to: Seq<char>) -> Seq<char>
    decreases s.len(),
{
    if s.len() == 0 {
        to
    } else {
        to + seq![s[0]] + interleave(s.skip(1), to)
    }
}

/// Replaces every non-overlapping occurrence of `from`, scanning left to right;
/// an empty `from` matches at every character boundary.
pub open spec fn replace_all(s: Seq<char>, from: Seq<char>, to: Seq<char>) -> Seq<char>
    decreases s.len(),
{
    if from.len() == 0 {
        interleave(s, to)
    } else if s.len() < from.len() {
        s
    } else if s.take(from.len() as int) == from {
        to + replace_all(s.skip(from.len() as int), from, to)
    } else {
        seq![s[0]] + replace_all(s.skip(1), from, to)
    }
}

/// `to` before every character of `s` and once more at the end.
fn interleave_chars(s: &Vec<char>, to: &Vec<char>) -> (r: Vec<char>)
    ensures
        r@ == interleave(s@, to@),
{
    let n: usize = s.len();
    let mut out: Vec<char> = Vec::new();
    let mut i: usize = 0;
    assert(s@.skip(0) =~= s@);
    assert(out@ + interleave(s@, to@) =~= interleave(s@, to@));
    while i < n
        invariant
            n == s.len(),
            i <= n,
            out@ + interleave(s@.skip(i as int), to@) == interleave(s@, to@),
        decreases n - i,
    {
        let ghost rest = s@.skip(i as int);
        proof {
            assert(rest.skip(1) =~= s@.skip(i + 1));
            assert(rest[0] == s@[i as int]);
        }
        let ghost before = out@;
        append_chars(&mut out, to);
        out.push(s[i]);
        proof {
            assert(out@ =~= before + to@ + seq![s@[i as int]]);
            assert(out@ + interleave(s@.skip(i + 1), to@) =~= before + (to@ + seq![s@[i as int]]
                + interleave(s@.skip(i + 1), to@)));
        }
        i = i + 1;
    }
    proof {
        assert(s@.skip(i as int).len() == 0);
    }
    append_chars(&mut out, to);
    out
}

/// `str::replace` on characters.
pub fn replace_chars(s: &Vec<char>, from: &Vec<char>, to: &Vec<char>) -> (r: Vec<char>)
    ensures
        r@ == replace_all(s@, from@, to@),
{
    if from.len() == 0 {
        return interleave_chars(s, to);
    }
    let n: usize = s.len();
    let m: usize = from.len();
    let mut out: Vec<char> = Vec::new();
    let mut i: usize = 0;
    assert(s@.skip(0) =~= s@);
    assert(out@ + replace_all(s@, from@, to@) =~= replace_all(s@, from@, to@));
    while i < n
        invariant
            n == s.len(),
            m == from.len(),
            m > 0,
            i <= n,
            out@ + replace_all(s@.skip(i as int), from@, to@) == replace_all(s@, from@, to@),
        decreases n - i,
    {
        let ghost rest = s@.skip(i as int);
        if occurs_at_exec(s, from, i) {
            proof {
                assert(rest.take(m as int) =~= s@.subrange(i as int, i + m));
                assert(rest.skip(m as int) =~= s@.skip(i + m));
                assert(replace_all(rest, from@, to@) == to@ + replace_all(
                    s@.skip(i + m),
                    from@,
                    to@,
                ));
            }
            append_chars(&mut out, to);
            proof {
                assert(out@ + replace_all(s@.skip(i + m), from@, to@) =~= (out@.subrange(
                    0,
                    out@.len() - to@.len(),
                ) + to@) + replace_all(s@.skip(i + m), from@, to@));
            }
            i = i + m;
        } else {
            proof {
                assert(rest.skip(1) =~= s@.skip(i + 1));
                assert(rest[0] == s@[i as int]);
                if rest.len() >= m {
                    assert(rest.take(m as int) =~= s@.subrange(i as int, i + m));
                }
                assert(replace_all(rest, from@, to@) == seq![s@[i as int]] + replace_all(
                    s@.skip(i + 1),
                    from@,
                    to@,
                ));
            }
            out.push(s[i]);
            proof {
                assert(out@ + replace_all(s@.skip(i + 1), from@, to@) =~= out@.drop_last() + (
                seq![s@[i as int]] + replace_all(s@.skip(i + 1), from@, to@)));
            }
            i = i + 1;
        }
    }
    proof {
        assert(s@.skip(i as int).len() == 0);
        assert(out@ + s@.skip(i as int) =~= out@);
    }
    out
}

/// `str::replace` on string slices.
pub fn replace_str(s: &str, from: &str, to: &str) -> (r: Vec<char>)
    ensures
        r@ == replace_all(s@, from@, to@),
{
    let sv = chars_of(s);
    let fv = chars_of(from);
    let tv = chars_of(to);
    replace_chars(&sv, &fv, &tv)
}

} // verus!
