//! The storage view of a member's finished retrospects: each filed under the
//! year of its date in Korean time, years newest first, and within a year the
//! newest date first.
use vstd::prelude::*;
use crate::calendar::{kst_format, kst_text};
use crate::parse::{parse_i64, parse_i64_spec};
use crate::retro_dto::{
    RetrospectMethod, RetrospectStatus, StorageRangeFilter, StorageResponse, StorageRetrospectItem,
    StorageYearGroup,
};
use crate::text::{append_chars, chars_of, decimal, digit_char, i64_text, int_text, string_from_chars};

verus! {

/// The order `str` compares by: code point by code point, a proper prefix
/// first (the byte order of UTF-8 text is the same).
pub open spec fn lex_le(a: Seq<char>, b: Seq<char>) -> bool
    decreases a.len(),
{
    if a.len() == 0 {
        true
    } else if b.len() == 0 {
        false
    } else if a[0] != b[0] {
        a[0] < b[0]
    } else {
        lex_le(a.drop_first(), b.drop_first())
    }
}

/// Any two texts are ordered one way or the other.
pub proof fn lemma_lex_total(a: Seq<char>, b: Seq<char>)
    ensures
        lex_le(a, b) || lex_le(b, a),
    decreases a.len(),
{
    if a.len() > 0 && b.len() > 0 && a[0] == b[0] {
        lemma_lex_total(a.drop_first(), b.drop_first());
    }
}

/// Every text is ordered with itself.
pub proof fn lemma_lex_refl(a: Seq<char>)
    ensures
        lex_le(a, a),
    decreases a.len(),
{
    if a.len() > 0 {
        lemma_lex_refl(a.drop_first());
    }
}

/// The order is transitive.
pub proof fn lemma_lex_trans(a: Seq<char>, b: Seq<char>, c: Seq<char>)
    requires
        lex_le(a, b),
        lex_le(b, c),
    ensures
        lex_le(a, c),
    decreases a.len(),
{
    if a.len() > 0 && b.len() > 0 && c.len() > 0 && a[0] == b[0] && b[0] == c[0] {
        lemma_lex_trans(a.drop_first(), b.drop_first(), c.drop_first());
    }
}

/// Compares two texts as `str` does: whether `a <= b`.
pub fn text_le(a: &str, b: &str) -> (r: bool)
    ensures
        r == lex_le(a@, b@),
{
    let x = chars_of(a);
    let y = chars_of(b);
    let mut i: usize = 0;
    assert(x@.skip(0) =~= x@);
    assert(y@.skip(0) =~= y@);
    while i < x.len() && i < y.len()
        invariant
            i <= x@.len(),
            i <= y@.len(),
            x@ == a@,
            y@ == b@,
            lex_le(x@, y@) == lex_le(x@.skip(i as int), y@.skip(i as int)),
        decreases x.len() - i,
    {
        assert(x@.skip(i as int)[0] == x@[i as int]);
        assert(y@.skip(i as int)[0] == y@[i as int]);
        let c = x[i];
        let d = y[i];
        if c != d {
            let less = c < d;
            proof {
                let xs = x@.skip(i as int);
                let ys = y@.skip(i as int);
                assert(xs.len() > 0 && ys.len() > 0 && xs[0] == c && ys[0] == d);
                assert(lex_le(xs, ys) == (c < d));
            }
            return less;
        }
        assert(x@.skip(i as int).drop_first() =~= x@.skip(i as int + 1));
        assert(y@.skip(i as int).drop_first() =~= y@.skip(i as int + 1));
        i = i + 1;
    }
    i == x.len()
}

/// The label a year is shown under: its number and `년`.
pub open spec fn year_label(year: i32) -> Seq<char> {
    int_text(year as int) + "년"@
}

/// Writes `year_label`.
pub fn year_label_text(year: i32) -> (r: String)
    ensures
        r@ == year_label(year),
{
    let mut v = chars_of(i64_text(year as i64).as_str());
    append_chars(&mut v, &chars_of("년"));
    string_from_chars(v.as_slice())
}

proof fn lemma_digit_char_injective(a: nat, b: nat)
    requires
        a < 10,
        b < 10,
        digit_char(a) == digit_char(b),
    ensures
        a == b,
{
}

proof fn lemma_decimal_shape(n: nat)
    ensures
        decimal(n).len() >= 1,
        n < 10 <==> decimal(n).len() == 1,
        decimal(n)[0] != '-',
    decreases n,
{
    if n >= 10 {
        lemma_decimal_shape(n / 10);
    }
}

proof fn lemma_decimal_injective(a: nat, b: nat)
    requires
        decimal(a) == decimal(b),
    ensures
        a == b,
    decreases a,
{
    lemma_decimal_shape(a);
    lemma_decimal_shape(b);
    if a < 10 {
        assert(decimal(a)[0] == digit_char(a));
        assert(decimal(b)[0] == digit_char(b));
        lemma_digit_char_injective(a, b);
    } else {
        let da = decimal(a / 10);
        let db = decimal(b / 10);
        assert(decimal(a) == da.push(digit_char(a % 10)));
        assert(decimal(b) == db.push(digit_char(b % 10)));
        assert(da =~= decimal(a).drop_last());
        assert(db =~= decimal(b).drop_last());
        assert(b >= 10);
        assert(decimal(a).last() == digit_char(a % 10));
        assert(decimal(b).last() == digit_char(b % 10));
        lemma_decimal_injective(a / 10, b / 10);
        lemma_digit_char_injective(a % 10, b % 10);
    }
}

/// Different years have different labels.
pub proof fn lemma_year_label_injective(a: i32, b: i32)
    requires
        year_label(a) == year_label(b),
    ensures
        a == b,
{
    let ta = int_text(a as int);
    let tb = int_text(b as int);
    reveal_strlit("년");
    assert(year_label(a).len() == ta.len() + 1);
    assert(year_label(b).len() == tb.len() + 1);
    assert(ta =~= year_label(a).take(ta.len() as int));
    assert(tb =~= year_label(b).take(tb.len() as int));
    assert(ta == tb);
    if a < 0 {
        lemma_decimal_shape((-a) as nat);
        if b < 0 {
            assert(decimal((-a) as nat) =~= ta.drop_first());
            assert(decimal((-b) as nat) =~= tb.drop_first());
            lemma_decimal_injective((-a) as nat, (-b) as nat);
        } else {
            lemma_decimal_shape(b as nat);
            assert(ta[0] == '-');
        }
    } else {
        lemma_decimal_shape(a as nat);
        if b < 0 {
            lemma_decimal_shape((-b) as nat);
            assert(tb[0] == '-');
        } else {
            lemma_decimal_injective(a as nat, b as nat);
        }
    }
}

/// Whether items run from the newest date to the oldest.
pub open spec fn newest_first(v: Seq<StorageRetrospectItem>) -> bool {
    forall|i: int, j: int| 0 <= i < j < v.len() ==> lex_le(v[j].display_date@, v[i].display_date@)
}

fn copy_item(x: &StorageRetrospectItem) -> (r: StorageRetrospectItem)
    ensures
        r == *x,
{
    StorageRetrospectItem {
        retrospect_id: x.retrospect_id,
        display_date: x.display_date.clone(),
        title: x.title.clone(),
        retrospect_method: x.retrospect_method,
        member_count: x.member_count,
    }
}

/// Whether an item carries a date.
pub open spec fn date_is(d: Seq<char>) -> spec_fn(StorageRetrospectItem) -> bool {
    |x: StorageRetrospectItem| x.display_date@ == d
}

/// The items of one date, in their order.
pub open spec fn dated(v: Seq<StorageRetrospectItem>, d: Seq<char>) -> Seq<StorageRetrospectItem> {
    v.filter(date_is(d))
}

/// Orders items from the newest date to the oldest; the items of one date
/// keep their order.
pub fn sort_newest_first(items: Vec<StorageRetrospectItem>) -> (r: Vec<StorageRetrospectItem>)
    ensures
        newest_first(r@),
        forall|d: Seq<char>| #[trigger] dated(r@, d) == dated(items@, d),
        r@.to_multiset() == items@.to_multiset(),
{
    let mut out: Vec<StorageRetrospectItem> = Vec::new();
    let mut rest = items;
    let ghost original = rest@;
    let mut taken: usize = 0;
    assert(original.take(0) =~= Seq::<StorageRetrospectItem>::empty());
    assert(original.len() == rest.len());
    proof {
        assert forall|d: Seq<char>| #[trigger] dated(out@, d) == dated(original.take(0), d) by {
            reveal(Seq::filter);
        }
    }
    while rest.len() > 0
        invariant
            newest_first(out@),
            original.len() == taken + rest@.len(),
            original.len() <= usize::MAX,
            rest@ == original.skip(taken as int),
            out@.to_multiset() == original.take(taken as int).to_multiset(),
            forall|d: Seq<char>| #[trigger] dated(out@, d) == dated(original.take(taken as int), d),
        decreases rest.len(),
    {
        let x = rest.remove(0);
        proof {
            assert(x == original[taken as int]);
            assert(rest@ =~= original.skip(taken as int + 1));
        }
        let mut pos: usize = out.len();
        while pos > 0 && !text_le(x.display_date.as_str(), out[pos - 1].display_date.as_str())
            invariant
                pos <= out@.len(),
                forall|k: int| pos <= k < out@.len() ==> !lex_le(x.display_date@, #[trigger] out@[k].display_date@),
            decreases pos,
        {
            pos = pos - 1;
        }
        let ghost before = out@;
        out.insert(pos, x);
        proof {
            assert(out@ == before.insert(pos as int, x));
            vstd::seq_lib::to_multiset_insert(before, pos as int, x);
            let t = original.take(taken as int + 1);
            assert(t =~= original.take(taken as int).push(x));
            vstd::seq_lib::to_multiset_build(original.take(taken as int), x);
            assert forall|i: int, j: int| 0 <= i < j < out@.len() implies lex_le(
                out@[j].display_date@,
                out@[i].display_date@,
            ) by {
                if j < pos {
                    assert(out@[i] == before[i] && out@[j] == before[j]);
                } else if j == pos {
                    assert(out@[i] == before[i]);
                    assert(lex_le(x.display_date@, before[pos - 1].display_date@));
                    if i < pos - 1 {
                        lemma_lex_trans(x.display_date@, before[pos - 1].display_date@, before[i].display_date@);
                    }
                } else if i == pos {
                    assert(out@[j] == before[j - 1]);
                    lemma_lex_total(x.display_date@, before[j - 1].display_date@);
                } else if i < pos {
                    assert(out@[i] == before[i] && out@[j] == before[j - 1]);
                } else {
                    assert(out@[i] == before[i - 1] && out@[j] == before[j - 1]);
                }
            }
            assert forall|d: Seq<char>| #[trigger] dated(out@, d) == dated(t, d) by {
                assert(dated(before, d) == dated(original.take(taken as int), d));
                assert(dated(out@, d) == before.insert(pos as int, x).filter(date_is(d)));
                assert(dated(t, d) == original.take(taken as int).push(x).filter(date_is(d)));
                original.take(taken as int).lemma_filter_push(x, date_is(d));
                if x.display_date@ == d {
                    assert forall|k: int| pos <= k < before.len() implies !date_is(d)(#[trigger] before[k]) by {
                        lemma_lex_refl(x.display_date@);
                    }
                    crate::stable::lemma_filter_insert_after_matches(before, pos as int, x, date_is(d));
                } else {
                    crate::stable::lemma_filter_insert_unmatched(before, pos as int, x, date_is(d));
                }
            }
        }
        taken = taken + 1;
    }
    assert(original.take(taken as int) =~= original);
    out
}

/// The items filed under a year, in the order given.
pub open spec fn items_of_year(entries: Seq<(i32, StorageRetrospectItem)>, year: i32) -> Seq<StorageRetrospectItem>
    decreases entries.len(),
{
    if entries.len() == 0 {
        Seq::empty()
    } else {
        let rest = items_of_year(entries.drop_last(), year);
        if entries.last().0 == year { rest.push(entries.last().1) } else { rest }
    }
}

/// A group holds a year: its label, all the items of the year, newest
/// first, those of one date in the order given.
#[verifier::opaque]
pub open spec fn holds_year(
    g: StorageYearGroup,
    entries: Seq<(i32, StorageRetrospectItem)>,
    year: i32,
) -> bool {
    &&& g.year_label@ == year_label(year)
    &&& g.retrospects@.to_multiset() == items_of_year(entries, year).to_multiset()
    &&& newest_first(g.retrospects@)
    &&& forall|d: Seq<char>| #[trigger] dated(g.retrospects@, d) == dated(items_of_year(entries, year), d)
}

/// Labels strictly descending: newest year first, each year once.
pub open spec fn labels_descending(gs: Seq<(i32, String)>) -> bool {
    forall|i: int, j: int|
        #![trigger gs[i], gs[j]]
        0 <= i < j < gs.len() ==> lex_le(gs[j].1@, gs[i].1@) && gs[j].1@ != gs[i].1@
}

fn items_for_year(entries: &Vec<(i32, StorageRetrospectItem)>, year: i32) -> (r: Vec<StorageRetrospectItem>)
    ensures
        r@ == items_of_year(entries@, year),
{
    let mut out: Vec<StorageRetrospectItem> = Vec::new();
    let mut t: usize = 0;
    while t < entries.len()
        invariant
            t <= entries@.len(),
            out@ == items_of_year(entries@.take(t as int), year),
        decreases entries.len() - t,
    {
        proof {
            let e = entries@.take(t as int + 1);
            assert(e.drop_last() =~= entries@.take(t as int));
            assert(e.last() == entries@[t as int]);
        }
        if entries[t].0 == year {
            out.push(copy_item(&entries[t].1));
        }
        t = t + 1;
    }
    assert(entries@.take(t as int) =~= entries@);
    out
}

/// Whether a year is among the labelled years.
pub open spec fn has_year(gs: Seq<(i32, String)>, year: i32) -> bool {
    exists|k: int| 0 <= k < gs.len() && (#[trigger] gs[k]).0 == year
}

/// Whether some entry is filed under a year.
pub open spec fn entries_have_year(entries: Seq<(i32, StorageRetrospectItem)>, year: i32) -> bool {
    exists|t: int| 0 <= t < entries.len() && (#[trigger] entries[t]).0 == year
}

/// Whether each labelled year carries its own label.
pub open spec fn labels_match(gs: Seq<(i32, String)>) -> bool {
    forall|k: int| 0 <= k < gs.len() ==> (#[trigger] gs[k]).1@ == year_label(gs[k].0)
}

/// Adds a year not yet present, keeping labels in descending order.
fn insert_year(out: &mut Vec<(i32, String)>, y: i32)
    requires
        labels_descending(old(out)@),
        labels_match(old(out)@),
        !has_year(old(out)@, y),
    ensures
        labels_descending(final(out)@),
        labels_match(final(out)@),
        forall|z: i32| has_year(final(out)@, z) <==> (has_year(old(out)@, z) || z == y),
{
    let label = year_label_text(y);
    let mut pos: usize = out.len();
    while pos > 0 && text_le(out[pos - 1].1.as_str(), label.as_str())
        invariant
            pos <= out@.len(),
            forall|k: int| pos <= k < out@.len() ==> lex_le((#[trigger] out@[k]).1@, label@),
        decreases pos,
    {
        pos = pos - 1;
    }
    let ghost before = out@;
    let ghost entry = (y, label);
    out.insert(pos, (y, label));
    proof {
        assert(out@ == before.insert(pos as int, entry));
        if pos > 0 {
            lemma_lex_total(before[pos - 1].1@, entry.1@);
        }
        assert forall|k: int| 0 <= k < before.len() implies (#[trigger] before[k]).1@ != entry.1@ by {
            if before[k].1@ == entry.1@ {
                lemma_year_label_injective(before[k].0, y);
                assert(has_year(before, y));
            }
        }
        assert forall|i: int, j: int| 0 <= i < j < out@.len() implies lex_le(out@[j].1@, out@[i].1@)
            && out@[j].1@ != out@[i].1@ by {
            if j < pos {
                assert(out@[i] == before[i] && out@[j] == before[j]);
            } else if j == pos {
                assert(out@[i] == before[i]);
                assert(before[i].1@ != entry.1@);
                if i < pos - 1 {
                    lemma_lex_trans(entry.1@, before[pos - 1].1@, before[i].1@);
                }
            } else if i == pos {
                assert(out@[j] == before[j - 1]);
                assert(before[j - 1].1@ != entry.1@);
            } else if i < pos {
                assert(out@[i] == before[i] && out@[j] == before[j - 1]);
            } else {
                assert(out@[i] == before[i - 1] && out@[j] == before[j - 1]);
            }
            assert(lex_le(out@[j].1@, out@[i].1@));
            assert(out@[j].1@ != out@[i].1@);
        }
        assert forall|k: int| 0 <= k < out@.len() implies (#[trigger] out@[k]).1@ == year_label(out@[k].0) by {
            if k < pos {
                assert(out@[k] == before[k]);
            } else if k > pos {
                assert(out@[k] == before[k - 1]);
            }
        }
        assert forall|z: i32| has_year(out@, z) <==> (has_year(before, z) || z == y) by {
            if has_year(out@, z) {
                let k = choose|k: int| 0 <= k < out@.len() && (#[trigger] out@[k]).0 == z;
                if k < pos {
                    assert(before[k] == out@[k]);
                } else if k > pos {
                    assert(before[k - 1] == out@[k]);
                }
            }
            if has_year(before, z) {
                let k = choose|k: int| 0 <= k < before.len() && (#[trigger] before[k]).0 == z;
                if k < pos {
                    assert(out@[k] == before[k]);
                } else {
                    assert(out@[k + 1] == before[k]);
                }
            }
            if z == y {
                assert(out@[pos as int].0 == y);
            }
        }
    }
}

/// The distinct years of the entries with their labels, newest label first.
fn year_labels(entries: &Vec<(i32, StorageRetrospectItem)>) -> (r: Vec<(i32, String)>)
    ensures
        labels_descending(r@),
        labels_match(r@),
        forall|z: i32| has_year(r@, z) <==> entries_have_year(entries@, z),
{
    let mut out: Vec<(i32, String)> = Vec::new();
    let mut t: usize = 0;
    while t < entries.len()
        invariant
            t <= entries@.len(),
            labels_descending(out@),
            labels_match(out@),
            forall|z: i32| has_year(out@, z) <==> entries_have_year(entries@.take(t as int), z),
        decreases entries.len() - t,
    {
        let y = entries[t].0;
        let mut found = false;
        let mut j: usize = 0;
        while j < out.len()
            invariant
                j <= out@.len(),
                found <==> exists|k: int| 0 <= k < j && (#[trigger] out@[k]).0 == y,
            decreases out.len() - j,
        {
            if out[j].0 == y {
                found = true;
            }
            j = j + 1;
        }
        let ghost before = out@;
        if !found {
            insert_year(&mut out, y);
        }
        proof {
            let e = entries@.take(t as int + 1);
            assert forall|z: i32| entries_have_year(e, z) <==> (entries_have_year(entries@.take(t as int), z) || z == y) by {
                if entries_have_year(e, z) {
                    let u = choose|u: int| 0 <= u < e.len() && (#[trigger] e[u]).0 == z;
                    if u < t {
                        assert(entries@.take(t as int)[u] == e[u]);
                    }
                }
                if entries_have_year(entries@.take(t as int), z) {
                    let u = choose|u: int| 0 <= u < t && (#[trigger] entries@.take(t as int)[u]).0 == z;
                    assert(e[u] == entries@.take(t as int)[u]);
                }
                if z == y {
                    assert(e[t as int].0 == y);
                }
            }
        }
        t = t + 1;
    }
    assert(entries@.take(t as int) =~= entries@);
    out
}

/// A group holds one of the entries' years.
pub open spec fn files_some_year(g: StorageYearGroup, entries: Seq<(i32, StorageRetrospectItem)>) -> bool {
    exists|y: i32| entries_have_year(entries, y) && #[trigger] holds_year(g, entries, y)
}

/// Some group holds a year.
pub open spec fn year_is_filed(
    years: Seq<StorageYearGroup>,
    entries: Seq<(i32, StorageRetrospectItem)>,
    y: i32,
) -> bool {
    exists|k: int| 0 <= k < years.len() && #[trigger] holds_year(years[k], entries, y)
}

proof fn lemma_groups_cover_years(
    years: Seq<StorageYearGroup>,
    labels: Seq<(i32, String)>,
    entries: Seq<(i32, StorageRetrospectItem)>,
)
    requires
        years.len() == labels.len(),
        labels_descending(labels),
        forall|z: i32| has_year(labels, z) <==> entries_have_year(entries, z),
        forall|m: int| 0 <= m < years.len() ==> (#[trigger] years[m]).year_label@ == labels[m].1@
            && holds_year(years[m], entries, labels[m].0),
    ensures
        forall|i: int, j: int| 0 <= i < j < years.len() ==>
            lex_le(years[j].year_label@, years[i].year_label@)
            && years[j].year_label@ != years[i].year_label@,
        forall|k: int| 0 <= k < years.len() ==> #[trigger] files_some_year(years[k], entries),
        forall|y: i32| #[trigger] entries_have_year(entries, y) ==> year_is_filed(years, entries, y),
{
    assert forall|i: int, j: int| 0 <= i < j < years.len() implies
        lex_le(years[j].year_label@, years[i].year_label@)
        && years[j].year_label@ != years[i].year_label@ by {
        assert(years[i].year_label@ == labels[i].1@);
        assert(years[j].year_label@ == labels[j].1@);
        assert(lex_le(labels[j].1@, labels[i].1@) && labels[j].1@ != labels[i].1@);
    }
    assert forall|m: int| 0 <= m < years.len() implies #[trigger] files_some_year(years[m], entries) by {
        let y = labels[m].0;
        assert(labels[m].0 == y);
        assert(has_year(labels, y));
        assert(entries_have_year(entries, y));
        assert(holds_year(years[m], entries, y));
    }
    assert forall|y: i32| #[trigger] entries_have_year(entries, y) implies year_is_filed(years, entries, y) by {
        assert(has_year(labels, y));
        let m = choose|m: int| 0 <= m < labels.len() && (#[trigger] labels[m]).0 == y;
        assert(holds_year(years[m], entries, y));
    }
}

/// `r` files the entries by year: one group per year, newest year first (by
/// its label, as text), each group holding its year's items newest first.
pub open spec fn grouped_by_year(entries: Seq<(i32, StorageRetrospectItem)>, r: StorageResponse) -> bool {
    &&& forall|i: int, j: int| 0 <= i < j < r.years@.len() ==>
        lex_le(r.years@[j].year_label@, r.years@[i].year_label@)
        && r.years@[j].year_label@ != r.years@[i].year_label@
    &&& forall|k: int| 0 <= k < r.years@.len() ==> #[trigger] files_some_year(r.years@[k], entries)
    &&& forall|y: i32| #[trigger] entries_have_year(entries, y) ==> year_is_filed(r.years@, entries, y)
}

/// Files the entries by year: one group per year, newest year first (by its
/// label, as text), and in each group the year's items newest first.
pub fn group_storage(entries: &Vec<(i32, StorageRetrospectItem)>) -> (r: StorageResponse)
    ensures
        grouped_by_year(entries@, r),
{
    let labels = year_labels(entries);
    let mut years: Vec<StorageYearGroup> = Vec::new();
    let mut k: usize = 0;
    while k < labels.len()
        invariant
            k <= labels@.len(),
            years@.len() == k,
            labels_match(labels@),
            labels_descending(labels@),
            forall|z: i32| has_year(labels@, z) <==> entries_have_year(entries@, z),
            forall|m: int| 0 <= m < k ==> (#[trigger] years@[m]).year_label@ == labels@[m].1@
                && holds_year(years@[m], entries@, labels@[m].0),
        decreases labels.len() - k,
    {
        let items = items_for_year(entries, labels[k].0);
        let sorted = sort_newest_first(items);
        assert(labels@[k as int].1@ == year_label(labels@[k as int].0));
        let group = StorageYearGroup { year_label: labels[k].1.clone(), retrospects: sorted };
        proof {
            reveal(holds_year);
            assert(holds_year(group, entries@, labels@[k as int].0));
        }
        years.push(group);
        k = k + 1;
    }
    proof {
        lemma_groups_cover_years(years@, labels@, entries@);
    }
    StorageResponse { years }
}

/// The year a year text stands for, as `text.parse::<i32>()` reads it, and
/// 0 where it cannot.
pub open spec fn year_of_text(t: Seq<char>) -> i32 {
    match parse_i64_spec(t) {
        Some(v) => if i32::MIN <= v <= i32::MAX { v as i32 } else { 0 },
        None => 0,
    }
}

/// Reads a year text as `year_of_text` says.
pub fn year_from_text(t: &str) -> (r: i32)
    ensures
        r == year_of_text(t@),
{
    match parse_i64(t) {
        Some(v) => if i32::MIN as i64 <= v && v <= i32::MAX as i64 { v as i32 } else { 0 },
        None => 0,
    }
}

/// A retrospect as storage reads it: its id, title and method, and when it
/// was created (seconds after the Unix epoch, UTC).
#[derive(Debug)]
pub struct StorageSource {
    pub retrospect_id: i64,
    pub title: String,
    pub retrospect_method: RetrospectMethod,
    pub created_at: i64,
}

/// When the member submitted a retrospect: the last submission time recorded
/// for it among the member's (retrospect id, submitted at) rows.
pub open spec fn submitted_at_of(mine: Seq<(i64, Option<i64>)>, id: i64) -> Option<i64>
    decreases mine.len(),
{
    if mine.len() == 0 {
        None
    } else if mine.last().0 == id && mine.last().1 is Some {
        mine.last().1
    } else {
        submitted_at_of(mine.drop_last(), id)
    }
}

/// Finds `submitted_at_of`.
pub fn submitted_at(mine: &Vec<(i64, Option<i64>)>, id: i64) -> (r: Option<i64>)
    ensures
        r == submitted_at_of(mine@, id),
{
    let mut i: usize = mine.len();
    assert(mine@.take(i as int) =~= mine@);
    while i > 0
        invariant
            i <= mine@.len(),
            submitted_at_of(mine@, id) == submitted_at_of(mine@.take(i as int), id),
        decreases i,
    {
        proof {
            let t = mine@.take(i as int);
            assert(t.drop_last() =~= mine@.take(i as int - 1));
            assert(t.last() == mine@[i as int - 1]);
        }
        if mine[i - 1].0 == id && mine[i - 1].1.is_some() {
            return mine[i - 1].1;
        }
        i = i - 1;
    }
    None
}

/// How many times an id occurs.
pub open spec fn occurrences(ids: Seq<i64>, id: i64) -> nat
    decreases ids.len(),
{
    if ids.len() == 0 {
        0
    } else {
        occurrences(ids.drop_last(), id) + if ids.last() == id { 1nat } else { 0nat }
    }
}

/// The number of participants of a retrospect: how often its id occurs among
/// the participation rows.
pub fn participant_count(ids: &Vec<i64>, id: i64) -> (r: i64)
    requires
        ids@.len() <= i64::MAX,
    ensures
        r == occurrences(ids@, id),
{
    let mut n: i64 = 0;
    let mut i: usize = 0;
    while i < ids.len()
        invariant
            i <= ids@.len(),
            ids@.len() <= i64::MAX,
            n == occurrences(ids@.take(i as int), id),
            n <= i,
        decreases ids.len() - i,
    {
        proof {
            let t = ids@.take(i as int + 1);
            assert(t.drop_last() =~= ids@.take(i as int));
            assert(t.last() == ids@[i as int]);
        }
        if ids[i] == id {
            n = n + 1;
        }
        i = i + 1;
    }
    assert(ids@.take(i as int) =~= ids@);
    n
}

/// The instant a retrospect is filed under: when the member submitted it,
/// else when it was created.
pub open spec fn filed_at(source: StorageSource, mine: Seq<(i64, Option<i64>)>) -> int {
    match submitted_at_of(mine, source.retrospect_id) {
        Some(t) => t as int,
        None => source.created_at as int,
    }
}

/// `r` holds, for each retrospect in order, its storage item and the year it
/// is filed under (in Korean time).
pub open spec fn filed_entries(
    sources: Seq<StorageSource>,
    mine: Seq<(i64, Option<i64>)>,
    participants: Seq<i64>,
    r: Seq<(i32, StorageRetrospectItem)>,
) -> bool {
    &&& r.len() == sources.len()
    &&& forall|i: int| 0 <= i < r.len() ==> {
        let e = #[trigger] r[i];
        let s = sources[i];
        &&& e.0 == year_of_text(kst_text(filed_at(s, mine), "%Y"@))
        &&& e.1.retrospect_id == s.retrospect_id
        &&& e.1.display_date@ == kst_text(filed_at(s, mine), "%Y-%m-%d"@)
        &&& e.1.title == s.title
        &&& e.1.retrospect_method == s.retrospect_method
        &&& e.1.member_count == occurrences(participants, s.retrospect_id)
    }
}

/// Turns each retrospect into its storage item and the year it is filed
/// under, in the order given.
pub fn storage_entries(
    sources: Vec<StorageSource>,
    mine: &Vec<(i64, Option<i64>)>,
    participants: &Vec<i64>,
) -> (r: Vec<(i32, StorageRetrospectItem)>)
    requires
        participants@.len() <= i64::MAX,
    ensures
        filed_entries(sources@, mine@, participants@, r@),
{
    let mut out: Vec<(i32, StorageRetrospectItem)> = Vec::new();
    let mut rest = sources;
    let ghost original = rest@;
    let mut taken: usize = 0;
    assert(original.len() == rest.len());
    while rest.len() > 0
        invariant
            original.len() == taken + rest@.len(),
            original.len() <= usize::MAX,
            rest@ == original.skip(taken as int),
            participants@.len() <= i64::MAX,
            out@.len() == taken,
            forall|i: int| 0 <= i < taken ==> {
                let e = #[trigger] out@[i];
                let s = original[i];
                &&& e.0 == year_of_text(kst_text(filed_at(s, mine@), "%Y"@))
                &&& e.1.retrospect_id == s.retrospect_id
                &&& e.1.display_date@ == kst_text(filed_at(s, mine@), "%Y-%m-%d"@)
                &&& e.1.title == s.title
                &&& e.1.retrospect_method == s.retrospect_method
                &&& e.1.member_count == occurrences(participants@, s.retrospect_id)
            },
        decreases rest.len(),
    {
        let s = rest.remove(0);
        proof {
            assert(s == original[taken as int]);
            assert(rest@ =~= original.skip(taken as int + 1));
        }
        let at = match submitted_at(mine, s.retrospect_id) {
            Some(t) => t,
            None => s.created_at,
        };
        let year = year_from_text(kst_format(at, "%Y").as_str());
        let item = StorageRetrospectItem {
            retrospect_id: s.retrospect_id,
            display_date: kst_format(at, "%Y-%m-%d"),
            title: s.title,
            retrospect_method: s.retrospect_method,
            member_count: participant_count(participants, s.retrospect_id),
        };
        out.push((year, item));
        taken = taken + 1;
    }
    out
}

/// The number of days a storage period reaches back; `None` for the whole history.
pub open spec fn range_days(f: StorageRangeFilter) -> Option<int> {
    match f {
        StorageRangeFilter::All => None,
        StorageRangeFilter::ThreeMonths => Some(90),
        StorageRangeFilter::SixMonths => Some(180),
        StorageRangeFilter::OneYear => Some(365),
    }
}

/// Storage keeps a member's participation when it is submitted or analysed
/// and, for a limited period, when it was submitted no earlier than that many
/// days before `now` (seconds after the Unix epoch, UTC); a participation
/// without a submission time is then left out.
pub open spec fn kept_in_storage(
    status: RetrospectStatus,
    submitted: Option<i64>,
    now: i64,
    range: StorageRangeFilter,
) -> bool {
    &&& (status == RetrospectStatus::Submitted || status == RetrospectStatus::Analyzed)
    &&& match range_days(range) {
        None => true,
        Some(d) => submitted matches Some(t) && t >= now - d * 86400,
    }
}

/// The kept participations, in the order given, as (retrospect id, submitted at).
pub open spec fn storage_selection(
    rows: Seq<(i64, RetrospectStatus, Option<i64>)>,
    now: i64,
    range: StorageRangeFilter,
) -> Seq<(i64, Option<i64>)>
    decreases rows.len(),
{
    if rows.len() == 0 {
        Seq::empty()
    } else {
        let rest = storage_selection(rows.drop_last(), now, range);
        if kept_in_storage(rows.last().1, rows.last().2, now, range) {
            rest.push((rows.last().0, rows.last().2))
        } else {
            rest
        }
    }
}

fn is_kept(status: RetrospectStatus, submitted: Option<i64>, now: i64, range: StorageRangeFilter) -> (b: bool)
    ensures
        b == kept_in_storage(status, submitted, now, range),
{
    let finished = match status {
        RetrospectStatus::Submitted => true,
        RetrospectStatus::Analyzed => true,
        RetrospectStatus::Draft => false,
    };
    if !finished {
        return false;
    }
    match range.days() {
        None => true,
        Some(d) => match submitted {
            Some(t) => (t as i128) >= (now as i128) - (d as i128) * 86400,
            None => false,
        },
    }
}

/// Selects a member's participation rows (retrospect id, status, submitted at)
/// for storage at the instant `now`.
pub fn select_storage_rows(
    rows: &Vec<(i64, RetrospectStatus, Option<i64>)>,
    now: i64,
    range: StorageRangeFilter,
) -> (r: Vec<(i64, Option<i64>)>)
    ensures
        r@ == storage_selection(rows@, now, range),
{
    let mut out: Vec<(i64, Option<i64>)> = Vec::new();
    let mut i: usize = 0;
    while i < rows.len()
        invariant
            i <= rows@.len(),
            out@ == storage_selection(rows@.take(i as int), now, range),
        decreases rows.len() - i,
    {
        proof {
            let t = rows@.take(i as int + 1);
            assert(t.drop_last() =~= rows@.take(i as int));
            assert(t.last() == rows@[i as int]);
        }
        let row = rows[i];
        if is_kept(row.1, row.2, now, range) {
            out.push((row.0, row.2));
        }
        i = i + 1;
    }
    assert(rows@.take(i as int) =~= rows@);
    out
}

/// Selects the rows for storage at the present instant (from the clock).
pub fn select_storage_rows_now(
    rows: &Vec<(i64, RetrospectStatus, Option<i64>)>,
    range: StorageRangeFilter,
) -> (r: Vec<(i64, Option<i64>)>)
    ensures
        exists|now: i64| r@ == #[trigger] storage_selection(rows@, now, range),
{
    let now = crate::event::utc_now_unix_secs();
    select_storage_rows(rows, now, range)
}

/// The storage response for the member's retrospects: each turned into its
/// item and filed under its year, the years newest first.
pub fn storage_response(
    sources: Vec<StorageSource>,
    mine: &Vec<(i64, Option<i64>)>,
    participants: &Vec<i64>,
) -> (r: StorageResponse)
    requires
        participants@.len() <= i64::MAX,
    ensures
        exists|e: Seq<(i32, StorageRetrospectItem)>| #[trigger] filed_entries(sources@, mine@, participants@, e)
            && grouped_by_year(e, r),
{
    let ghost src = sources@;
    let entries = storage_entries(sources, mine, participants);
    let r = group_storage(&entries);
    assert(filed_entries(src, mine@, participants@, entries@));
    r
}

} // verus!
