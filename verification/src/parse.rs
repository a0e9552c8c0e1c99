//! Reading numbers and comma-separated lists from text, as `str::parse` and
//! `str::split` do.
use vstd::prelude::*;
use crate::string_set::StringSet;
use crate::text::{chars_of, string_from_chars, trim_chars};

verus! {

pub open spec fn is_digit(c: char) -> bool {
    '0' <= c && c <= '9'
}

pub open spec fn all_digits(s: Seq<char>) -> bool {
    forall|i: int| 0 <= i < s.len() ==> is_digit(#[trigger] s[i])
}

/// The number a string of decimal digits denotes.
pub open spec fn digits_value(s: Seq<char>) -> int
    decreases s.len(),
{
    if s.len() == 0 {
        0
    } else {
        digits_value(s.drop_last()) * 10 + ((s.last() as u32) - ('0' as u32))
    }
}

/// The digits after an optional leading '+'.
pub open spec fn unsigned_body(s: Seq<char>) -> Seq<char> {
    if s.len() > 0 && s[0] == '+' {
        s.drop_first()
    } else {
        s
    }
}

/// What `s.parse::<u32>()` accepts: an optional '+', at least one digit, and a
/// value that fits.
pub open spec fn parse_u32_spec(s: Seq<char>) -> Option<u32> {
    let b = unsigned_body(s);
    if b.len() > 0 && all_digits(b) && digits_value(b) <= u32::MAX {
        Some(digits_value(b) as u32)
    } else {
        None
    }
}

/// What `s.parse::<i64>()` accepts: an optional sign, at least one digit, and a
/// value in range.
pub open spec fn parse_i64_spec(s: Seq<char>) -> Option<i64> {
    if s.len() > 0 && s[0] == '-' {
        let b = s.drop_first();
        if b.len() > 0 && all_digits(b) && digits_value(b) <= 9223372036854775808 {
            Some((-digits_value(b)) as i64)
        } else {
            None
        }
    } else {
        let b = unsigned_body(s);
        if b.len() > 0 && all_digits(b) && digits_value(b) <= i64::MAX {
            Some(digits_value(b) as i64)
        } else {
            None
        }
    }
}

proof fn lemma_digits_value_nonneg(s: Seq<char>)
    requires
        all_digits(s),
    ensures
        digits_value(s) >= 0,
    decreases s.len(),
{
    if s.len() > 0 {
        assert(is_digit(s[s.len() - 1]));
        assert forall|i: int| 0 <= i < s.drop_last().len() implies is_digit(
            #[trigger] s.drop_last()[i],
        ) by {
            assert(s.drop_last()[i] == s[i]);
        }
        lemma_digits_value_nonneg(s.drop_last());
    }
}

/// Reads the digits of `v[from..]`; the value is capped at `cap` (exclusive
/// marker for "too large"). `None` when a non-digit occurs or there is no digit.
fn capped_digits(v: &Vec<char>, from: usize, cap: u128) -> (r: Option<u128>)
    requires
        from <= v.len(),
        cap <= 0x1_0000_0000_0000_0000u128,
    ensures
        match r {
            Some(x) => {
                &&& v@.skip(from as int).len() > 0
                &&& all_digits(v@.skip(from as int))
                &&& x == (if digits_value(v@.skip(from as int)) < cap {
                    digits_value(v@.skip(from as int))
                } else {
                    cap as int
                })
            },
            None => v@.skip(from as int).len() == 0 || !all_digits(v@.skip(from as int)),
        },
{
    let ghost b = v@.skip(from as int);
    if from == v.len() {
        return None;
    }
    let mut acc: u128 = 0;
    let mut i: usize = from;
    while i < v.len()
        invariant
            from <= i <= v.len(),
            b == v@.skip(from as int),
            cap <= 0x1_0000_0000_0000_0000u128,
            all_digits(b.take(i - from)),
            acc == (if digits_value(b.take(i - from)) < cap {
                digits_value(b.take(i - from))
            } else {
                cap as int
            }),
        decreases v.len() - i,
    {
        let c = v[i];
        if !('0' <= c && c <= '9') {
            proof {
                assert(b[i - from] == c);
            }
            return None;
        }
        let d: u128 = ((c as u32) - ('0' as u32)) as u128;
        let ghost prev = b.take(i - from);
        proof {
            let nxt = b.take(i - from + 1);
            assert(nxt.drop_last() =~= prev);
            assert(nxt.last() == c);
            lemma_digits_value_nonneg(prev);
            assert forall|k: int| 0 <= k < nxt.len() implies is_digit(#[trigger] nxt[k]) by {
                if k < prev.len() {
                    assert(nxt[k] == prev[k]);
                }
            }
        }
        if acc >= cap {
            acc = cap;
        } else {
            let t: u128 = acc * 10 + d;
            if t >= cap {
                acc = cap;
            } else {
                acc = t;
            }
        }
        i = i + 1;
    }
    proof {
        assert(b.take(i - from) =~= b);
    }
    Some(acc)
}

/// `s.parse::<u32>()`, as an option.
pub fn parse_u32(s: &str) -> (r: Option<u32>)
    ensures
        r == parse_u32_spec(s@),
{
    let v = chars_of(s);
    let start: usize = if v.len() > 0 && v[0] == '+' {
        1
    } else {
        0
    };
    proof {
        assert(v@.skip(start as int) =~= unsigned_body(s@));
    }
    match capped_digits(&v, start, 0x1_0000_0000u128) {
        Some(x) => {
            if x <= 0xffff_ffffu128 {
                Some(x as u32)
            } else {
                None
            }
        },
        None => None,
    }
}

/// `s.parse::<i64>()`, as an option.
pub fn parse_i64(s: &str) -> (r: Option<i64>)
    ensures
        r == parse_i64_spec(s@),
{
    let v = chars_of(s);
    if v.len() > 0 && v[0] == '-' {
        proof {
            assert(v@.skip(1) =~= s@.drop_first());
        }
        match capped_digits(&v, 1, 0x8000_0000_0000_0001u128) {
            Some(x) => {
                if x <= 0x8000_0000_0000_0000u128 {
                    if x == 0x8000_0000_0000_0000u128 {
                        Some(i64::MIN)
                    } else {
                        let m: i64 = x as i64;
                        Some(-m)
                    }
                } else {
                    None
                }
            },
            None => None,
        }
    } else {
        let start: usize = if v.len() > 0 && v[0] == '+' {
            1
        } else {
            0
        };
        proof {
            assert(v@.skip(start as int) =~= unsigned_body(s@));
        }
        match capped_digits(&v, start, 0x8000_0000_0000_0000u128) {
            Some(x) => {
                if x <= 0x7fff_ffff_ffff_ffffu128 {
                    Some(x as i64)
                } else {
                    None
                }
            },
            None => None,
        }
    }
}

/// The pieces of `s` between occurrences of `sep`, as `str::split` yields them.
pub open spec fn split_on(s: Seq<char>, sep: char) -> Seq<Seq<char>>
    decreases s.len(),
{
    if s.len() == 0 {
        seq![Seq::empty()]
    } else {
        let p = split_on(s.drop_last(), sep);
        if s.last() == sep {
            p.push(Seq::empty())
        } else {
            p.update(p.len() - 1, p.last().push(s.last()))
        }
    }
}

pub proof fn lemma_split_nonempty(s: Seq<char>, sep: char)
    ensures
        split_on(s, sep).len() >= 1,
    decreases s.len(),
{
    if s.len() > 0 {
        lemma_split_nonempty(s.drop_last(), sep);
    }
}

/// The pieces of `s` between occurrences of `sep`.
pub fn split_chars(s: &Vec<char>, sep: char) -> (r: Vec<Vec<char>>)
    ensures
        r@.map_values(|p: Vec<char>| p@) == split_on(s@, sep),
{
    let mut done: Vec<Vec<char>> = Vec::new();
    let mut cur: Vec<char> = Vec::new();
    let mut i: usize = 0;
    while i < s.len()
        invariant
            i <= s.len(),
            done@.map_values(|p: Vec<char>| p@).push(cur@) == split_on(s@.take(i as int), sep),
        decreases s.len() - i,
    {
        let ghost pre = s@.take(i as int);
        let ghost nxt = s@.take(i + 1);
        proof {
            assert(nxt.drop_last() =~= pre);
            assert(nxt.last() == s@[i as int]);
            lemma_split_nonempty(pre, sep);
        }
        if s[i] == sep {
            let finished = cur;
            done.push(finished);
            cur = Vec::new();
            assert(done@.map_values(|p: Vec<char>| p@).push(cur@) =~= split_on(nxt, sep));
        } else {
            cur.push(s[i]);
            assert(done@.map_values(|p: Vec<char>| p@).push(cur@) =~= split_on(nxt, sep));
        }
        i = i + 1;
    }
    proof {
        assert(s@.take(s.len() as int) =~= s@);
    }
    done.push(cur);
    assert(done@.map_values(|p: Vec<char>| p@) =~= split_on(s@, sep));
    done
}

/// The trimmed, non-empty pieces of a comma-separated list.
pub open spec fn list_items(s: Seq<char>) -> Set<Seq<char>> {
    Set::new(
        |x: Seq<char>|
            x.len() > 0 && exists|i: int|
                0 <= i < split_on(s, ',').len() && crate::text::trim(
                    #[trigger] split_on(s, ',')[i],
                ) == x,
    )
}

/// The set of trimmed, non-empty items of a comma-separated list.
pub fn parse_list(s: &str) -> (r: StringSet)
    ensures
        r@ == list_items(s@),
{
    let v = chars_of(s);
    let pieces = split_chars(&v, ',');
    let ghost ps = pieces@.map_values(|p: Vec<char>| p@);
    let mut set = StringSet::new();
    let mut i: usize = 0;
    while i < pieces.len()
        invariant
            i <= pieces@.len(),
            ps == split_on(s@, ','),
            ps == pieces@.map_values(|p: Vec<char>| p@),
            forall|x: Seq<char>| #[trigger]
                set@.contains(x) <==> (x.len() > 0 && exists|j: int|
                    0 <= j < i && crate::text::trim(ps[j]) == x),
        decreases pieces.len() - i,
    {
        let t = trim_chars(&pieces[i]);
        assert(t@ == crate::text::trim(ps[i as int]));
        if t.len() > 0 {
            let ts = string_from_chars(t.as_slice());
            set.insert(ts.as_str());
        }
        assert forall|x: Seq<char>| #[trigger]
            set@.contains(x) <==> (x.len() > 0 && exists|j: int|
                0 <= j < i + 1 && crate::text::trim(ps[j]) == x) by {
            if set@.contains(x) && x != t@ {
                let j = choose|j: int| 0 <= j < i && crate::text::trim(ps[j]) == x;
            }
        }
        i = i + 1;
    }
    assert(set@ =~= list_items(s@));
    set
}

} // verus!
