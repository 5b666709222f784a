//! Sorting an outline without tearing it apart.
//!
//! A sort moves whole blocks: a row and every row indented under it travel
//! together, siblings are ordered among themselves, and each block's own
//! children are sorted the same way. Rows that compare equal keep their
//! order.

use vstd::prelude::*;
use crate::text::chars_of;

verus! {

/// What a sort reads of one row: how deep it is indented, the value it is
/// sorted by, and its name in lower case, which breaks ties.
pub struct SortRow {
    pub level: u16,
    pub value: i64,
    pub name: String,
}

/// What `str::to_lowercase` gives for a text: every character in its
/// lower-case form, as Unicode maps it.
pub uninterp spec fn lowercased(s: Seq<char>) -> Seq<char>;

/// `str::to_lowercase`.
#[verifier::external_body]
fn lower_case(s: &str) -> (r: String)
    ensures
        r@ == lowercased(s@),
{
    s.to_lowercase()
}

impl SortRow {
    /// What a sort reads of a task indented to `level`, with `value` the
    /// value it is sorted by and `name` its name as written.
    pub fn of(level: u16, value: i64, name: &str) -> (r: SortRow)
        ensures
            r.level == level,
            r.value == value,
            r.name@ == lowercased(name@),
    {
        SortRow { level, value, name: lower_case(name) }
    }
}

/// Whether one name comes before another, character by character, a name
/// that runs out first coming first. Comparing characters by code point is
/// the order strings have, since UTF-8 keeps it.
pub open spec fn name_less(a: Seq<char>, b: Seq<char>) -> bool
    decreases a.len(),
{
    if a.len() == 0 {
        b.len() > 0
    } else if b.len() == 0 {
        false
    } else if a[0] != b[0] {
        a[0] < b[0]
    } else {
        name_less(a.skip(1), b.skip(1))
    }
}

/// Whether one row sorts before another: by value, then by name.
pub open spec fn row_less(a: SortRow, b: SortRow) -> bool {
    a.value < b.value || (a.value == b.value && name_less(a.name@, b.name@))
}

/// Where the run of rows indented deeper than `level` that starts at `j`
/// ends.
pub open spec fn run_end(rows: Seq<SortRow>, j: int, end: int, level: u16) -> int
    decreases end - j,
{
    if j >= end || rows[j].level <= level {
        j
    } else {
        run_end(rows, j + 1, end, level)
    }
}

/// A run starts where it is asked to and stops at `end` or at the first row
/// no deeper than `level`.
pub proof fn lemma_run_end(rows: Seq<SortRow>, j: int, end: int, level: u16)
    ensures
        j <= end ==> j <= run_end(rows, j, end, level) <= end,
        j > end ==> run_end(rows, j, end, level) == j,
        forall|k: int| j <= k < run_end(rows, j, end, level) ==> #[trigger] rows[k].level > level,
        run_end(rows, j, end, level) < end ==> rows[run_end(rows, j, end, level)].level <= level,
    decreases end - j,
{
    if j < end && rows[j].level > level {
        lemma_run_end(rows, j + 1, end, level);
    }
}

/// The blocks that make up `cursor..end` at `level`: each a row and the
/// rows indented under it, as (first, past the last).
pub open spec fn blocks(rows: Seq<SortRow>, cursor: int, end: int, level: u16) -> Seq<(int, int)>
    decreases end - cursor,
{
    if cursor >= end {
        Seq::empty()
    } else {
        let next = run_end(rows, cursor + 1, end, level);
        proof {
            lemma_run_end(rows, cursor + 1, end, level);
        }
        seq![(cursor, next)] + blocks(rows, next, end, level)
    }
}

/// Whether block `a` sorts before block `b`, by the rows they start with.
pub open spec fn block_less(rows: Seq<SortRow>, a: (int, int), b: (int, int)) -> bool {
    row_less(rows[a.0], rows[b.0])
}

/// Where a block goes among blocks already in order: after every block it
/// does not sort before, so that equal blocks keep their order.
pub open spec fn insert_at(rows: Seq<SortRow>, sorted: Seq<(int, int)>, b: (int, int)) -> int
    decreases sorted.len(),
{
    if sorted.len() == 0 {
        0
    } else if block_less(rows, b, sorted.last()) {
        insert_at(rows, sorted.drop_last(), b)
    } else {
        sorted.len() as int
    }
}

/// Blocks in order of the rows they start with, equal ones in the order they
/// came.
pub open spec fn sort_blocks(rows: Seq<SortRow>, bs: Seq<(int, int)>) -> Seq<(int, int)>
    decreases bs.len(),
{
    if bs.len() == 0 {
        Seq::empty()
    } else {
        let sorted = sort_blocks(rows, bs.drop_last());
        sorted.insert(insert_at(rows, sorted, bs.last()), bs.last())
    }
}

/// The rows of `start..end` rearranged: its blocks at `level` in order, each
/// one's first row followed by the rest of it, arranged the same way one
/// level down.
pub open spec fn arranged(rows: Seq<SortRow>, start: int, end: int, level: u16) -> Seq<int>
    decreases end - start, 1int, 0int,
{
    laid_out(rows, sort_blocks(rows, blocks(rows, start, end, level)), start, end, level)
}

/// The blocks `bs` of `start..end`, one after another, each first row then
/// its own rows arranged one level down.
pub open spec fn laid_out(
    rows: Seq<SortRow>,
    bs: Seq<(int, int)>,
    start: int,
    end: int,
    level: u16,
) -> Seq<int>
    decreases end - start, 0int, bs.len(),
{
    if bs.len() == 0 {
        Seq::empty()
    } else {
        let b = bs.last();
        let under = if start <= b.0 && b.0 < b.1 && b.1 <= end && b.1 > b.0 + 1 && level
            < u16::MAX {
            arranged(rows, b.0 + 1, b.1, (level + 1) as u16)
        } else {
            Seq::empty()
        };
        laid_out(rows, bs.drop_last(), start, end, level) + seq![b.0] + under
    }
}


/// Positions as integers.
pub open spec fn ints(v: Seq<usize>) -> Seq<int> {
    v.map_values(|i: usize| i as int)
}

/// Blocks as pairs of integers.
pub open spec fn pairs(v: Seq<(usize, usize)>) -> Seq<(int, int)> {
    v.map_values(|p: (usize, usize)| (p.0 as int, p.1 as int))
}

/// Whether a block is one of `start..end` at `level`: inside the range, not
/// empty, and everything after its first row indented deeper.
pub open spec fn block_within(rows: Seq<SortRow>, b: (int, int), start: int, end: int, level: u16) -> bool {
    &&& start <= b.0 < b.1 <= end
    &&& forall|k: int| b.0 < k < b.1 ==> #[trigger] rows[k].level > level
}

/// Every block of `cursor..end` lies within it.
proof fn lemma_blocks_within(rows: Seq<SortRow>, cursor: int, end: int, level: u16)
    ensures
        forall|i: int|
            0 <= i < blocks(rows, cursor, end, level).len() ==> block_within(
                rows,
                #[trigger] blocks(rows, cursor, end, level)[i],
                cursor,
                end,
                level,
            ),
    decreases end - cursor,
{
    if cursor < end {
        let next = run_end(rows, cursor + 1, end, level);
        lemma_run_end(rows, cursor + 1, end, level);
        lemma_blocks_within(rows, next, end, level);
        let bs = blocks(rows, cursor, end, level);
        assert forall|i: int| 0 <= i < bs.len() implies block_within(rows, #[trigger] bs[i], cursor, end, level) by {
            if i > 0 {
                assert(bs[i] == blocks(rows, next, end, level)[i - 1]);
            }
        }
    }
}

/// Sorting blocks keeps them all and adds none.
proof fn lemma_sort_blocks_keeps(rows: Seq<SortRow>, bs: Seq<(int, int)>)
    ensures
        sort_blocks(rows, bs).len() == bs.len(),
        sort_blocks(rows, bs).to_multiset() == bs.to_multiset(),
        0 <= insert_at(rows, sort_blocks(rows, bs), bs.last()) <= sort_blocks(rows, bs).len(),
    decreases bs.len(),
{
    broadcast use vstd::multiset::group_multiset_axioms, vstd::seq_lib::group_to_multiset_ensures;
    lemma_insert_at_bounds(rows, sort_blocks(rows, bs), bs.last());
    if bs.len() > 0 {
        let rest = bs.drop_last();
        lemma_sort_blocks_keeps(rows, rest);
        let sorted = sort_blocks(rows, rest);
        lemma_insert_at_bounds(rows, sorted, bs.last());
        let k = insert_at(rows, sorted, bs.last());
        vstd::seq_lib::lemma_seq_union_to_multiset_commutative(rest, seq![bs.last()]);
        assert(bs =~= rest.push(bs.last()));
        assert(sorted.insert(k, bs.last()).to_multiset() =~= sorted.to_multiset().insert(bs.last()));
    }
}

/// A block goes somewhere among the blocks it joins.
proof fn lemma_insert_at_bounds(rows: Seq<SortRow>, sorted: Seq<(int, int)>, b: (int, int))
    ensures
        0 <= insert_at(rows, sorted, b) <= sorted.len(),
    decreases sorted.len(),
{
    if sorted.len() > 0 && block_less(rows, b, sorted.last()) {
        lemma_insert_at_bounds(rows, sorted.drop_last(), b);
    }
}

/// Whether one name comes before another.
fn chars_less(a: &Vec<char>, b: &Vec<char>) -> (r: bool)
    ensures
        r == name_less(a@, b@),
{
    let mut i: usize = 0;
    proof {
        assert(a@.skip(0) =~= a@);
        assert(b@.skip(0) =~= b@);
    }
    while i < a.len() && i < b.len()
        invariant
            i <= a.len(),
            i <= b.len(),
            name_less(a@, b@) == name_less(a@.skip(i as int), b@.skip(i as int)),
        decreases a.len() - i,
    {
        let x = a[i];
        let y = b[i];
        proof {
            assert(a@.skip(i as int)[0] == x);
            assert(b@.skip(i as int)[0] == y);
        }
        if x != y {
            return x < y;
        }
        proof {
            assert(a@.skip(i as int).skip(1) =~= a@.skip(i + 1));
            assert(b@.skip(i as int).skip(1) =~= b@.skip(i + 1));
        }
        i = i + 1;
    }
    a.len() < b.len()
}

/// The names of the rows, as characters, one to a row.
pub open spec fn names_of(rows: Seq<SortRow>, names: Seq<Vec<char>>) -> bool {
    &&& names.len() == rows.len()
    &&& forall|i: int| 0 <= i < rows.len() ==> #[trigger] names[i]@ == rows[i].name@
}

fn row_before(rows: &Vec<SortRow>, names: &Vec<Vec<char>>, a: usize, b: usize) -> (r: bool)
    requires
        a < rows.len(),
        b < rows.len(),
        names_of(rows@, names@),
    ensures
        r == row_less(rows@[a as int], rows@[b as int]),
{
    let x = &rows[a];
    let y = &rows[b];
    if x.value != y.value {
        return x.value < y.value;
    }
    chars_less(&names[a], &names[b])
}

fn blocks_of(rows: &Vec<SortRow>, start: usize, end: usize, level: u16) -> (r: Vec<(usize, usize)>)
    requires
        start <= end <= rows.len(),
    ensures
        pairs(r@) == blocks(rows@, start as int, end as int, level),
{
    let mut r: Vec<(usize, usize)> = Vec::new();
    let mut cursor = start;
    while cursor < end
        invariant
            start <= cursor <= end <= rows.len(),
            pairs(r@) + blocks(rows@, cursor as int, end as int, level) == blocks(
                rows@,
                start as int,
                end as int,
                level,
            ),
        decreases end - cursor,
    {
        let mut next = cursor + 1;
        while next < end && rows[next].level > level
            invariant
                cursor + 1 <= next <= end <= rows.len(),
                run_end(rows@, cursor + 1, end as int, level) == run_end(
                    rows@,
                    next as int,
                    end as int,
                    level,
                ),
            decreases end - next,
        {
            next = next + 1;
        }
        proof {
            lemma_run_end(rows@, cursor + 1, end as int, level);
            let rest = blocks(rows@, next as int, end as int, level);
            assert(blocks(rows@, cursor as int, end as int, level) == seq![
                (cursor as int, next as int),
            ] + rest);
            assert(pairs(r@.push((cursor, next))) =~= pairs(r@).push((cursor as int, next as int)));
            assert(pairs(r@).push((cursor as int, next as int)) + rest =~= pairs(r@) + (seq![
                (cursor as int, next as int),
            ] + rest));
        }
        r.push((cursor, next));
        cursor = next;
    }
    proof {
        assert(pairs(r@) + blocks(rows@, end as int, end as int, level) =~= pairs(r@));
    }
    r
}

fn sort_blocks_of(rows: &Vec<SortRow>, names: &Vec<Vec<char>>, bs: &Vec<(usize, usize)>) -> (r: Vec<
    (usize, usize),
>)
    requires
        names_of(rows@, names@),
        forall|i: int| 0 <= i < bs.len() ==> #[trigger] bs@[i].0 < rows.len(),
    ensures
        pairs(r@) == sort_blocks(rows@, pairs(bs@)),
{
    let mut sorted: Vec<(usize, usize)> = Vec::new();
    let mut i: usize = 0;
    while i < bs.len()
        invariant
            i <= bs.len(),
            names_of(rows@, names@),
            forall|j: int| 0 <= j < bs.len() ==> #[trigger] bs@[j].0 < rows.len(),
            pairs(sorted@) == sort_blocks(rows@, pairs(bs@).take(i as int)),
            forall|j: int| 0 <= j < sorted.len() ==> #[trigger] sorted@[j].0 < rows.len(),
        decreases bs.len() - i,
    {
        let b = bs[i];
        let ghost whole = pairs(sorted@);
        let ghost pb = (b.0 as int, b.1 as int);
        let mut k = sorted.len();
        proof {
            assert(whole.take(k as int) =~= whole);
        }
        loop
            invariant_except_break
                k <= sorted.len(),
                b.0 < rows.len(),
                pb == (b.0 as int, b.1 as int),
                names_of(rows@, names@),
                forall|j: int| 0 <= j < sorted.len() ==> #[trigger] sorted@[j].0 < rows.len(),
                whole == pairs(sorted@),
                insert_at(rows@, whole, pb) == insert_at(rows@, whole.take(k as int), pb),
            ensures
                k <= sorted.len(),
                whole == pairs(sorted@),
                insert_at(rows@, whole, pb) == k,
            decreases k,
        {
            if k == 0 {
                break;
            }
            let earlier = row_before(rows, names, b.0, sorted[k - 1].0);
            proof {
                let t = whole.take(k as int);
                assert(t.drop_last() =~= whole.take(k - 1));
                assert(t.last() == (sorted@[k - 1].0 as int, sorted@[k - 1].1 as int));
            }
            if !earlier {
                break;
            }
            k = k - 1;
        }
        proof {
            assert(pairs(bs@).take(i + 1).drop_last() =~= pairs(bs@).take(i as int));
            assert(pairs(bs@).take(i + 1).last() == pb);
        }
        sorted.insert(k, b);
        proof {
            assert(pairs(sorted@) =~= whole.insert(k as int, pb));
        }
        i = i + 1;
    }
    proof {
        assert(pairs(bs@).take(bs.len() as int) =~= pairs(bs@));
    }
    sorted
}


fn arrange(rows: &Vec<SortRow>, names: &Vec<Vec<char>>, start: usize, end: usize, level: u16) -> (out:
    Vec<usize>)
    requires
        start <= end <= rows.len(),
        names_of(rows@, names@),
    ensures
        ints(out@) == arranged(rows@, start as int, end as int, level),
    decreases end - start,
{
    let bs = blocks_of(rows, start, end, level);
    proof {
        lemma_blocks_within(rows@, start as int, end as int, level);
        assert forall|i: int| 0 <= i < bs.len() implies #[trigger] bs@[i].0 < rows.len() by {
            assert(pairs(bs@)[i] == (bs@[i].0 as int, bs@[i].1 as int));
        }
    }
    let sorted = sort_blocks_of(rows, names, &bs);
    let ghost order = pairs(sorted@);
    proof {
        broadcast use vstd::seq_lib::group_to_multiset_ensures;
        lemma_sort_blocks_keeps(rows@, pairs(bs@));
        assert forall|j: int| 0 <= j < order.len() implies block_within(
            rows@,
            #[trigger] order[j],
            start as int,
            end as int,
            level,
        ) by {
            let x = order[j];
            assert(order.contains(x));
            assert(order.to_multiset().count(x) > 0);
            assert(pairs(bs@).contains(x));
        }
    }
    let mut out: Vec<usize> = Vec::new();
    let mut k: usize = 0;
    while k < sorted.len()
        invariant
            k <= sorted.len(),
            start <= end <= rows.len(),
            names_of(rows@, names@),
            order == pairs(sorted@),
            forall|j: int| 0 <= j < order.len() ==> block_within(
                rows@,
                #[trigger] order[j],
                start as int,
                end as int,
                level,
            ),
            ints(out@) == laid_out(rows@, order.take(k as int), start as int, end as int, level),
        decreases sorted.len() - k,
    {
        let (head, tail) = sorted[k];
        proof {
            assert(order[k as int] == (head as int, tail as int));
            assert(block_within(rows@, order[k as int], start as int, end as int, level));
            assert(order.take(k + 1).drop_last() =~= order.take(k as int));
            assert(order.take(k + 1).last() == (head as int, tail as int));
        }
        let ghost before = out@;
        out.push(head);
        proof {
            assert(ints(out@) =~= ints(before) + seq![head as int]);
        }
        if tail > head + 1 {
            proof {
                assert(rows@[head + 1].level > level);
            }
            let mut under = arrange(rows, names, head + 1, tail, level + 1);
            let ghost pushed = out@;
            let ghost below = under@;
            out.append(&mut under);
            proof {
                assert(ints(out@) =~= ints(pushed) + ints(below));
            }
        } else {
            proof {
                assert(ints(out@) =~= ints(out@) + Seq::<int>::empty());
            }
        }
        k = k + 1;
    }
    proof {
        assert(order.take(sorted.len() as int) =~= order);
    }
    out
}

/// Sort the sibling blocks that start at `level` within `start..end`, each
/// block's own rows sorted the same way, and give back the order the rows
/// now come in, by position.
pub fn sort_range(rows: &Vec<SortRow>, start: usize, end: usize, level: u16) -> (out: Vec<usize>)
    requires
        start <= end <= rows.len(),
    ensures
        ints(out@) == arranged(rows@, start as int, end as int, level),
{
    let mut names: Vec<Vec<char>> = Vec::new();
    let mut i: usize = 0;
    while i < rows.len()
        invariant
            i <= rows.len(),
            names.len() == i,
            forall|j: int| 0 <= j < i ==> #[trigger] names@[j]@ == rows@[j].name@,
        decreases rows.len() - i,
    {
        names.push(chars_of(rows[i].name.as_str()));
        i = i + 1;
    }
    arrange(rows, &names, start, end, level)
}


/// The positions `s..e`, in order.
pub open spec fn positions(s: int, e: int) -> Seq<int> {
    Seq::new((e - s) as nat, |i: int| s + i)
}

/// The positions a run of blocks covers, block after block.
pub open spec fn spans(bs: Seq<(int, int)>) -> Seq<int>
    decreases bs.len(),
{
    if bs.len() == 0 {
        Seq::empty()
    } else {
        spans(bs.drop_last()) + positions(bs.last().0, bs.last().1)
    }
}

proof fn lemma_spans_concat(a: Seq<(int, int)>, b: Seq<(int, int)>)
    ensures
        spans(a + b) == spans(a) + spans(b),
    decreases b.len(),
{
    if b.len() == 0 {
        assert(a + b =~= a);
        assert(spans(a) + spans(b) =~= spans(a));
    } else {
        lemma_spans_concat(a, b.drop_last());
        assert((a + b).drop_last() =~= a + b.drop_last());
        assert((a + b).last() == b.last());
        assert(spans(a + b) =~= spans(a) + spans(b));
    }
}

proof fn lemma_spans_one(x: (int, int))
    ensures
        spans(seq![x]) == positions(x.0, x.1),
{
    let one = seq![x];
    assert(one.drop_last() =~= Seq::<(int, int)>::empty());
    assert(spans(one.drop_last()) =~= Seq::<int>::empty());
    assert(one.last() == x);
    assert(spans(one) == spans(one.drop_last()) + positions(x.0, x.1));
    assert(Seq::<int>::empty() + positions(x.0, x.1) =~= positions(x.0, x.1));
}

/// The blocks of a range cover it, in order, with nothing left over.
proof fn lemma_blocks_span(rows: Seq<SortRow>, c: int, e: int, level: u16)
    requires
        c <= e,
    ensures
        spans(blocks(rows, c, e, level)) == positions(c, e),
    decreases e - c,
{
    if c < e {
        let n = run_end(rows, c + 1, e, level);
        lemma_run_end(rows, c + 1, e, level);
        lemma_blocks_span(rows, n, e, level);
        let rest = blocks(rows, n, e, level);
        lemma_spans_concat(seq![(c, n)], rest);
        lemma_spans_one((c, n));
        assert(positions(c, n) + positions(n, e) =~= positions(c, e));
    } else {
        assert(positions(c, e) =~= Seq::<int>::empty());
    }
}

/// Sorting blocks moves what they cover about and loses none of it.
proof fn lemma_sorted_spans(rows: Seq<SortRow>, bs: Seq<(int, int)>)
    ensures
        spans(sort_blocks(rows, bs)).to_multiset() == spans(bs).to_multiset(),
    decreases bs.len(),
{
    broadcast use vstd::multiset::group_multiset_axioms, vstd::seq_lib::lemma_multiset_commutative;

    if bs.len() > 0 {
        let rest = bs.drop_last();
        let x = bs.last();
        lemma_sorted_spans(rows, rest);
        let s = sort_blocks(rows, rest);
        let k = insert_at(rows, s, x);
        lemma_insert_at_bounds(rows, s, x);
        assert(s.insert(k, x) =~= (s.take(k) + seq![x]) + s.skip(k));
        assert(s =~= s.take(k) + s.skip(k));
        lemma_spans_concat(s.take(k) + seq![x], s.skip(k));
        lemma_spans_concat(s.take(k), seq![x]);
        lemma_spans_concat(s.take(k), s.skip(k));
        lemma_spans_one(x);
        let a = spans(s.take(k)).to_multiset();
        let m = positions(x.0, x.1).to_multiset();
        let c = spans(s.skip(k)).to_multiset();
        assert(spans(sort_blocks(rows, bs)).to_multiset() =~= a.add(m).add(c));
        assert(spans(s).to_multiset() =~= a.add(c));
        assert(spans(bs).to_multiset() =~= spans(rest).to_multiset().add(m));
    }
}

/// Laying out blocks that lie within a range puts down what they cover.
proof fn lemma_laid_out_covers(rows: Seq<SortRow>, bs: Seq<(int, int)>, s: int, e: int, level: u16)
    requires
        forall|j: int| 0 <= j < bs.len() ==> block_within(rows, #[trigger] bs[j], s, e, level),
    ensures
        laid_out(rows, bs, s, e, level).to_multiset() == spans(bs).to_multiset(),
    decreases e - s, 0int, bs.len(),
{
    broadcast use vstd::multiset::group_multiset_axioms, vstd::seq_lib::lemma_multiset_commutative;

    if bs.len() > 0 {
        let b = bs.last();
        let front = bs.drop_last();
        assert forall|j: int| 0 <= j < front.len() implies block_within(rows, #[trigger] front[j], s, e, level) by {
            assert(front[j] == bs[j]);
        }
        lemma_laid_out_covers(rows, front, s, e, level);
        assert(block_within(rows, bs[bs.len() - 1], s, e, level));
        let under = if b.1 > b.0 + 1 {
            assert(rows[b.0 + 1].level > level);
            sorting_keeps_every_row(rows, b.0 + 1, b.1, (level + 1) as u16);
            arranged(rows, b.0 + 1, b.1, (level + 1) as u16)
        } else {
            assert(positions(b.0 + 1, b.1) =~= Seq::<int>::empty());
            Seq::<int>::empty()
        };
        assert(positions(b.0, b.1) =~= seq![b.0] + positions(b.0 + 1, b.1));
        assert(laid_out(rows, bs, s, e, level) == laid_out(rows, front, s, e, level) + seq![b.0]
            + under);
        assert(laid_out(rows, bs, s, e, level).to_multiset() =~= laid_out(
            rows,
            front,
            s,
            e,
            level,
        ).to_multiset().add(seq![b.0].to_multiset()).add(under.to_multiset()));
        assert(positions(b.0, b.1).to_multiset() =~= seq![b.0].to_multiset().add(
            positions(b.0 + 1, b.1).to_multiset(),
        ));
    }
}

/// A sort keeps every row of the range and brings in none: what comes out
/// is the positions `start..end`, each exactly once.
pub proof fn sorting_keeps_every_row(rows: Seq<SortRow>, start: int, end: int, level: u16)
    requires
        start <= end,
    ensures
        arranged(rows, start, end, level).to_multiset() == positions(start, end).to_multiset(),
    decreases end - start, 1int, 0int,
{
    broadcast use vstd::seq_lib::group_to_multiset_ensures;

    let bs = blocks(rows, start, end, level);
    let sorted = sort_blocks(rows, bs);
    lemma_blocks_within(rows, start, end, level);
    lemma_sort_blocks_keeps(rows, bs);
    assert forall|j: int| 0 <= j < sorted.len() implies block_within(
        rows,
        #[trigger] sorted[j],
        start,
        end,
        level,
    ) by {
        let x = sorted[j];
        assert(sorted.contains(x));
        assert(sorted.to_multiset().count(x) > 0);
        assert(bs.contains(x));
    }
    lemma_laid_out_covers(rows, sorted, start, end, level);
    lemma_sorted_spans(rows, bs);
    lemma_blocks_span(rows, start, end, level);
}


proof fn lemma_name_order(a: Seq<char>, b: Seq<char>)
    ensures
        !name_less(a, a),
        name_less(a, b) ==> !name_less(b, a),
        a != b ==> name_less(a, b) || name_less(b, a),
    decreases a.len(),
{
    if a.len() > 0 {
        lemma_name_order(a.skip(1), a.skip(1));
        if b.len() > 0 {
            lemma_name_order(a.skip(1), b.skip(1));
            if a[0] == b[0] && a.skip(1) == b.skip(1) {
                assert(a =~= b) by {
                    assert forall|i: int| 0 <= i < a.len() implies a[i] == b[i] by {
                        if i > 0 {
                            assert(a[i] == a.skip(1)[i - 1]);
                            assert(b[i] == b.skip(1)[i - 1]);
                        }
                    }
                }
            }
        }
    } else if b.len() == 0 {
        assert(a =~= b);
    }
}

proof fn lemma_name_transitive(a: Seq<char>, b: Seq<char>, c: Seq<char>)
    requires
        name_less(a, b),
        name_less(b, c),
    ensures
        name_less(a, c),
    decreases a.len(),
{
    if a.len() > 0 && b.len() > 0 && c.len() > 0 && a[0] == b[0] && b[0] == c[0] {
        lemma_name_transitive(a.skip(1), b.skip(1), c.skip(1));
    }
}

/// The order rows sort in is a total order on what it compares: value, then
/// name.
pub proof fn lemma_row_order(a: SortRow, b: SortRow, c: SortRow)
    ensures
        !row_less(a, a),
        row_less(a, b) ==> !row_less(b, a),
        row_less(a, b) && row_less(b, c) ==> row_less(a, c),
        !row_less(a, b) && !row_less(b, a) ==> a.value == b.value && a.name@ == b.name@,
        !row_less(a, b) && !row_less(b, c) ==> !row_less(a, c),
{
    lemma_name_order(a.name@, b.name@);
    lemma_name_order(b.name@, c.name@);
    lemma_name_order(a.name@, c.name@);
    lemma_name_order(c.name@, a.name@);
    if name_less(a.name@, b.name@) && name_less(b.name@, c.name@) {
        lemma_name_transitive(a.name@, b.name@, c.name@);
    }
    if name_less(c.name@, b.name@) && name_less(b.name@, a.name@) {
        lemma_name_transitive(c.name@, b.name@, a.name@);
    }
}

/// Where a block is put among blocks in order: everything from there on
/// sorts after it, and the one before it does not.
proof fn lemma_insert_at_place(rows: Seq<SortRow>, sorted: Seq<(int, int)>, x: (int, int))
    ensures
        forall|m: int|
            insert_at(rows, sorted, x) <= m < sorted.len() ==> block_less(rows, x, #[trigger] sorted[m]),
        insert_at(rows, sorted, x) > 0 ==> !block_less(
            rows,
            x,
            sorted[insert_at(rows, sorted, x) - 1],
        ),
    decreases sorted.len(),
{
    lemma_insert_at_bounds(rows, sorted, x);
    if sorted.len() > 0 && block_less(rows, x, sorted.last()) {
        let front = sorted.drop_last();
        lemma_insert_at_place(rows, front, x);
        lemma_insert_at_bounds(rows, front, x);
        assert forall|m: int| insert_at(rows, sorted, x) <= m < sorted.len() implies block_less(
            rows,
            x,
            #[trigger] sorted[m],
        ) by {
            if m < front.len() {
                assert(sorted[m] == front[m]);
            }
        }
        if insert_at(rows, sorted, x) > 0 {
            assert(sorted[insert_at(rows, sorted, x) - 1] == front[insert_at(rows, front, x) - 1]);
        }
    }
}

/// Blocks in order: none sorts before one ahead of it, and of two that
/// compare equal the one that started earlier comes first.
pub open spec fn in_order(rows: Seq<SortRow>, bs: Seq<(int, int)>) -> bool {
    &&& forall|i: int, j: int|
        0 <= i < j < bs.len() ==> !block_less(rows, #[trigger] bs[j], #[trigger] bs[i])
    &&& forall|i: int, j: int|
        0 <= i < j < bs.len() && !block_less(rows, #[trigger] bs[i], #[trigger] bs[j]) ==> bs[i].0
            < bs[j].0
}

/// Blocks sorted are in order, whenever they were given in the order they
/// start in.
proof fn lemma_sort_blocks_in_order(rows: Seq<SortRow>, bs: Seq<(int, int)>)
    requires
        forall|i: int, j: int| 0 <= i < j < bs.len() ==> #[trigger] bs[i].0 < #[trigger] bs[j].0,
    ensures
        in_order(rows, sort_blocks(rows, bs)),
    decreases bs.len(),
{
    broadcast use vstd::seq_lib::group_to_multiset_ensures;

    if bs.len() > 0 {
        let rest = bs.drop_last();
        let x = bs.last();
        assert forall|i: int, j: int| 0 <= i < j < rest.len() implies #[trigger] rest[i].0
            < #[trigger] rest[j].0 by {
            assert(rest[i] == bs[i] && rest[j] == bs[j]);
        }
        lemma_sort_blocks_in_order(rows, rest);
        lemma_sort_blocks_keeps(rows, rest);
        let s = sort_blocks(rows, rest);
        let k = insert_at(rows, s, x);
        lemma_insert_at_bounds(rows, s, x);
        lemma_insert_at_place(rows, s, x);
        let t = s.insert(k, x);
        assert forall|m: int| 0 <= m < s.len() implies #[trigger] s[m].0 < x.0 by {
            assert(s.contains(s[m]));
            assert(s.to_multiset().count(s[m]) > 0);
            assert(rest.contains(s[m]));
            let w = choose|w: int| 0 <= w < rest.len() && rest[w] == s[m];
            assert(bs[w] == rest[w]);
            assert(bs[bs.len() - 1] == x);
        }
        assert forall|i: int, j: int| 0 <= i < j < t.len() implies !block_less(
            rows,
            #[trigger] t[j],
            #[trigger] t[i],
        ) && (!block_less(rows, t[i], t[j]) ==> t[i].0 < t[j].0) by {
            if j < k {
                assert(t[i] == s[i] && t[j] == s[j]);
            } else if j == k {
                assert(t[j] == x && t[i] == s[i]);
                if i < k - 1 {
                    lemma_row_order(rows[x.0], rows[s[k - 1].0], rows[s[i].0]);
                }
            } else if i == k {
                assert(t[i] == x && t[j] == s[j - 1]);
                lemma_row_order(rows[x.0], rows[s[j - 1].0], rows[s[j - 1].0]);
            } else if i < k {
                assert(t[i] == s[i] && t[j] == s[j - 1]);
            } else {
                assert(t[i] == s[i - 1] && t[j] == s[j - 1]);
            }
        }
    }
}

/// The blocks of a range come in the order they start in.
proof fn lemma_blocks_ascend(rows: Seq<SortRow>, c: int, e: int, level: u16)
    ensures
        forall|i: int, j: int|
            0 <= i < j < blocks(rows, c, e, level).len() ==> #[trigger] blocks(
                rows,
                c,
                e,
                level,
            )[i].0 < #[trigger] blocks(rows, c, e, level)[j].0,
        forall|i: int|
            0 <= i < blocks(rows, c, e, level).len() ==> c <= #[trigger] blocks(rows, c, e, level)[i].0,
    decreases e - c,
{
    if c < e {
        let n = run_end(rows, c + 1, e, level);
        lemma_run_end(rows, c + 1, e, level);
        lemma_blocks_ascend(rows, n, e, level);
        let bs = blocks(rows, c, e, level);
        let rest = blocks(rows, n, e, level);
        assert forall|i: int| 0 <= i < bs.len() implies c <= #[trigger] bs[i].0 by {
            if i > 0 {
                assert(bs[i] == rest[i - 1]);
            }
        }
        assert forall|i: int, j: int| 0 <= i < j < bs.len() implies #[trigger] bs[i].0
            < #[trigger] bs[j].0 by {
            assert(bs[j] == rest[j - 1]);
            if i > 0 {
                assert(bs[i] == rest[i - 1]);
            }
        }
    }
}

/// Siblings come out in order of their first rows, and siblings whose first
/// rows compare equal keep the order they were in.
pub proof fn siblings_come_out_in_order(rows: Seq<SortRow>, start: int, end: int, level: u16)
    ensures
        in_order(rows, sort_blocks(rows, blocks(rows, start, end, level))),
{
    lemma_blocks_ascend(rows, start, end, level);
    lemma_sort_blocks_in_order(rows, blocks(rows, start, end, level));
}

proof fn lemma_laid_out_prefix(
    rows: Seq<SortRow>,
    bs: Seq<(int, int)>,
    k: int,
    start: int,
    end: int,
    level: u16,
)
    requires
        0 <= k <= bs.len(),
    ensures
        laid_out(rows, bs.take(k), start, end, level).len() <= laid_out(
            rows,
            bs,
            start,
            end,
            level,
        ).len(),
        laid_out(rows, bs, start, end, level).subrange(
            0,
            laid_out(rows, bs.take(k), start, end, level).len() as int,
        ) == laid_out(rows, bs.take(k), start, end, level),
    decreases bs.len(),
{
    let whole = laid_out(rows, bs, start, end, level);
    if k == bs.len() {
        assert(bs.take(k) =~= bs);
        assert(whole.subrange(0, whole.len() as int) =~= whole);
    } else {
        let rest = bs.drop_last();
        lemma_laid_out_prefix(rows, rest, k, start, end, level);
        assert(rest.take(k) =~= bs.take(k));
        let part = laid_out(rows, bs.take(k), start, end, level);
        let before = laid_out(rows, rest, start, end, level);
        assert(whole.subrange(0, part.len() as int) =~= before.subrange(0, part.len() as int));
    }
}

/// Where the `j`-th of the blocks `bs` starts once they are laid out.
pub open spec fn block_offset(
    rows: Seq<SortRow>,
    bs: Seq<(int, int)>,
    j: int,
    start: int,
    end: int,
    level: u16,
) -> int {
    laid_out(rows, bs.take(j), start, end, level).len() as int
}

/// Every task keeps its own tasks under it, and so each task keeps its
/// parent: in a sorted range, each block's first row comes out directly
/// followed by exactly the rows that were indented under it, in whatever
/// order they were sorted among themselves.
pub proof fn each_task_keeps_its_own_tasks_under_it(
    rows: Seq<SortRow>,
    start: int,
    end: int,
    level: u16,
    j: int,
)
    requires
        start <= end,
        0 <= j < sort_blocks(rows, blocks(rows, start, end, level)).len(),
    ensures
        ({
            let sorted = sort_blocks(rows, blocks(rows, start, end, level));
            let b = sorted[j];
            let out = arranged(rows, start, end, level);
            let o = block_offset(rows, sorted, j, start, end, level);
            &&& 0 <= o
            &&& o + (b.1 - b.0) <= out.len()
            &&& out[o] == b.0
            &&& out.subrange(o + 1, o + (b.1 - b.0)).to_multiset() == positions(
                b.0 + 1,
                b.1,
            ).to_multiset()
        }),
{
    broadcast use vstd::seq_lib::group_to_multiset_ensures;

    let bs = blocks(rows, start, end, level);
    let sorted = sort_blocks(rows, bs);
    let b = sorted[j];
    lemma_blocks_within(rows, start, end, level);
    lemma_sort_blocks_keeps(rows, bs);
    assert(block_within(rows, b, start, end, level)) by {
        assert(sorted.contains(b));
        assert(sorted.to_multiset().count(b) > 0);
        assert(bs.contains(b));
    }
    let upto = sorted.take(j + 1);
    assert(upto.drop_last() =~= sorted.take(j));
    assert(upto.last() == b);
    lemma_laid_out_prefix(rows, sorted, j + 1, start, end, level);
    let pre = laid_out(rows, sorted.take(j), start, end, level);
    let p: int = pre.len() as int;
    let under = if start <= b.0 && b.0 < b.1 && b.1 <= end && b.1 > b.0 + 1 && level < u16::MAX {
        arranged(rows, b.0 + 1, b.1, (level + 1) as u16)
    } else {
        Seq::empty()
    };
    assert(laid_out(rows, upto, start, end, level) == pre + seq![b.0] + under);
    if b.1 > b.0 + 1 {
        assert(rows[b.0 + 1].level > level);
        sorting_keeps_every_row(rows, b.0 + 1, b.1, (level + 1) as u16);
    } else {
        assert(positions(b.0 + 1, b.1) =~= Seq::<int>::empty());
    }
    assert(under.len() == b.1 - b.0 - 1) by {
        assert(under.to_multiset().len() == positions(b.0 + 1, b.1).to_multiset().len());
    }
    let out = arranged(rows, start, end, level);
    let whole = pre + seq![b.0] + under;
    assert(out.subrange(0, whole.len() as int) == whole);
    assert(out[p] == whole[p]);
    assert(out.subrange(p + 1, p + (b.1 - b.0)) =~= under) by {
        assert forall|i: int| 0 <= i < under.len() implies out.subrange(p + 1, p + (b.1 - b.0))[i]
            == under[i] by {
            assert(out[p + 1 + i] == out.subrange(0, whole.len() as int)[p + 1 + i]);
            assert(whole[p + 1 + i] == under[i]);
        }
    }
}

} // verus!
