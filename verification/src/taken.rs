//! Keeping somebody else's work apart from this copy's own: which of the
//! entries that came from the server are new, which of this copy's entries
//! are still its own to offer, and what is remembered of theirs.
//!
//! Entries are named here by their numbers alone: the seq the server gave an
//! entry, or the id this copy's log gives it.

use vstd::prelude::*;

verus! {

/// Whether entry `i` of a batch whose seqs are `seqs` is new: past the point
/// `taken_through` the log has been read to, and not already earlier in the
/// same batch.
pub open spec fn fresh_at(seqs: Seq<i64>, taken_through: i64, i: int) -> bool {
    &&& seqs[i] > taken_through
    &&& forall|j: int| 0 <= j < i ==> seqs[j] != seqs[i]
}

/// The positions among the first `n` entries that are new, in order.
pub open spec fn fresh_positions(seqs: Seq<i64>, taken_through: i64, n: int) -> Seq<usize>
    decreases n,
{
    if n <= 0 {
        Seq::empty()
    } else if fresh_at(seqs, taken_through, n - 1) {
        fresh_positions(seqs, taken_through, n - 1).push((n - 1) as usize)
    } else {
        fresh_positions(seqs, taken_through, n - 1)
    }
}

/// The entries of `s` that `by` holds, when `inside`, or that it does not,
/// in their order.
pub open spec fn sifted(s: Seq<u64>, by: Seq<u64>, inside: bool) -> Seq<u64>
    decreases s.len(),
{
    if s.len() == 0 {
        Seq::empty()
    } else if by.contains(s.last()) == inside {
        sifted(s.drop_last(), by, inside).push(s.last())
    } else {
        sifted(s.drop_last(), by, inside)
    }
}

proof fn lemma_fresh_positions(seqs: Seq<i64>, taken_through: i64, n: int)
    requires
        0 <= n <= seqs.len(),
        seqs.len() <= usize::MAX,
    ensures
        forall|a: int|
            0 <= a < fresh_positions(seqs, taken_through, n).len() ==> {
                let p = #[trigger] fresh_positions(seqs, taken_through, n)[a];
                p < n && fresh_at(seqs, taken_through, p as int)
            },
        forall|a: int, b: int|
            0 <= a < b < fresh_positions(seqs, taken_through, n).len() ==> #[trigger] fresh_positions(
                seqs,
                taken_through,
                n,
            )[a] < #[trigger] fresh_positions(seqs, taken_through, n)[b],
    decreases n,
{
    if n > 0 {
        lemma_fresh_positions(seqs, taken_through, n - 1);
        let before = fresh_positions(seqs, taken_through, n - 1);
        if fresh_at(seqs, taken_through, n - 1) {
            let after = before.push((n - 1) as usize);
            assert(after[before.len() as int] == n - 1);
            assert forall|a: int| 0 <= a < before.len() implies #[trigger] after[a] == before[a]
                && before[a] < n - 1 by {}
        }
    }
}

proof fn lemma_sifted_contains(s: Seq<u64>, by: Seq<u64>, inside: bool, x: u64)
    ensures
        sifted(s, by, inside).contains(x) <==> (s.contains(x) && by.contains(x) == inside),
    decreases s.len(),
{
    if s.len() > 0 {
        let rest = s.drop_last();
        lemma_sifted_contains(rest, by, inside, x);
        assert(s =~= rest.push(s.last()));
        if s.contains(x) && x != s.last() {
            let k = choose|k: int| 0 <= k < s.len() && s[k] == x;
            assert(rest[k] == x);
        }
        if by.contains(s.last()) == inside {
            let r = sifted(rest, by, inside);
            if r.push(s.last()).contains(x) && x != s.last() {
                let k = choose|k: int| 0 <= k < r.len() + 1 && r.push(s.last())[k] == x;
                assert(r[k] == x);
            }
            if r.contains(x) {
                let k = choose|k: int| 0 <= k < r.len() && r[k] == x;
                assert(r.push(s.last())[k] == x);
            }
            assert(r.push(s.last())[r.len() as int] == s.last());
        }
        if rest.contains(x) {
            let k = choose|k: int| 0 <= k < rest.len() && rest[k] == x;
            assert(s[k] == x);
        }
        assert(s[s.len() - 1] == s.last());
    }
}

/// Whether `ids` holds `id`.
fn holds(ids: &Vec<u64>, id: u64) -> (r: bool)
    ensures
        r == ids@.contains(id),
{
    let mut i: usize = 0;
    while i < ids.len()
        invariant
            i <= ids.len(),
            forall|k: int| 0 <= k < i ==> ids@[k] != id,
        decreases ids.len() - i,
    {
        if ids[i] == id {
            assert(ids@[i as int] == id);
            return true;
        }
        i = i + 1;
    }
    false
}

/// The entries of `s` that `by` holds, when `inside`, or that it does not.
fn sift(s: &Vec<u64>, by: &Vec<u64>, inside: bool) -> (r: Vec<u64>)
    ensures
        r@ == sifted(s@, by@, inside),
{
    let mut r: Vec<u64> = Vec::new();
    let mut i: usize = 0;
    while i < s.len()
        invariant
            i <= s.len(),
            r@ == sifted(s@.take(i as int), by@, inside),
        decreases s.len() - i,
    {
        let id = s[i];
        assert(s@.take(i as int + 1).drop_last() =~= s@.take(i as int));
        assert(s@.take(i as int + 1).last() == id);
        if holds(by, id) == inside {
            r.push(id);
        }
        i = i + 1;
    }
    assert(s@.take(s.len() as int) =~= s@);
    r
}

/// Which entries of a batch from the server, given by their seqs, are to be
/// taken in: those past `taken_through`, the point this copy has read the
/// shared log to, and each seq once. A change can come twice, in a catch-up
/// and again in the live stream, in a refusal and again as a broadcast, or
/// echoed back after a push; the seq it carries is what tells.
pub fn not_yet_taken(seqs: &Vec<i64>, taken_through: i64) -> (r: Vec<usize>)
    ensures
        r@ == fresh_positions(seqs@, taken_through, seqs.len() as int),
{
    let mut r: Vec<usize> = Vec::new();
    let mut i: usize = 0;
    while i < seqs.len()
        invariant
            i <= seqs.len(),
            r@ == fresh_positions(seqs@, taken_through, i as int),
        decreases seqs.len() - i,
    {
        let seq = seqs[i];
        let mut fresh = seq > taken_through;
        let mut j: usize = 0;
        while fresh && j < i
            invariant
                j <= i < seqs.len(),
                seq == seqs@[i as int],
                fresh ==> seq > taken_through && forall|k: int| 0 <= k < j ==> seqs@[k] != seq,
                !fresh ==> !fresh_at(seqs@, taken_through, i as int),
            decreases i - j,
        {
            if seqs[j] == seq {
                fresh = false;
            }
            j = j + 1;
        }
        if fresh {
            r.push(i);
        }
        i = i + 1;
    }
    r
}

/// This copy's own work not yet sent: the ids `unsent` that the log has not
/// sent, less those in `taken`, which came from the server. Everything that
/// decides what to offer asks this, because the log holds both copies'
/// entries and only one of them is this copy's to offer.
pub fn our_unsent(unsent: &Vec<u64>, taken: &Vec<u64>) -> (r: Vec<u64>)
    ensures
        r@ == sifted(unsent@, taken@, false),
{
    sift(unsent, taken, false)
}

/// Whether any of this copy's own work is waiting to go.
pub fn have_unsent(unsent: &Vec<u64>, taken: &Vec<u64>) -> (r: bool)
    ensures
        r == (sifted(unsent@, taken@, false).len() > 0),
{
    our_unsent(unsent, taken).len() > 0
}

/// Put somebody else's entries, with ids `theirs`, on the sent side of the
/// line, `nothing_waiting` telling whether this copy had work of its own
/// waiting before they went into the log, and `held` being the ids the log
/// holds once they are in.
///
/// With nothing of this copy's waiting, the watermark simply moves past
/// them: that is the id returned, the highest of theirs. Otherwise the
/// watermark cannot move without marking this copy's work as sent, so their
/// ids are remembered in `taken` instead. Either way an id the log has
/// dropped is forgotten, so what is remembered does not grow for as long as
/// a session lasts.
pub fn take_into_the_log(
    nothing_waiting: bool,
    theirs: &Vec<u64>,
    held: &Vec<u64>,
    taken: &mut Vec<u64>,
) -> (mark: Option<u64>)
    ensures
        nothing_waiting && theirs.len() > 0 ==> {
            &&& mark matches Some(h) && (exists|i: int|
                0 <= i < theirs.len() && #[trigger] theirs@[i] == h) && (forall|i: int|
                0 <= i < theirs.len() ==> #[trigger] theirs@[i] <= h)
            &&& final(taken)@ == sifted(old(taken)@, held@, true)
        },
        !(nothing_waiting && theirs.len() > 0) ==> {
            &&& mark is None
            &&& final(taken)@ == sifted(old(taken)@ + theirs@, held@, true)
        },
{
    let mut mark: Option<u64> = None;
    if nothing_waiting && theirs.len() > 0 {
        let mut best: u64 = theirs[0];
        let mut i: usize = 1;
        while i < theirs.len()
            invariant
                1 <= i <= theirs.len(),
                exists|k: int| 0 <= k < i && #[trigger] theirs@[k] == best,
                forall|k: int| 0 <= k < i ==> #[trigger] theirs@[k] <= best,
            decreases theirs.len() - i,
        {
            if theirs[i] > best {
                best = theirs[i];
            }
            i = i + 1;
        }
        mark = Some(best);
    } else {
        let mut i: usize = 0;
        let ghost before = taken@;
        while i < theirs.len()
            invariant
                i <= theirs.len(),
                taken@ == before + theirs@.take(i as int),
            decreases theirs.len() - i,
        {
            taken.push(theirs[i]);
            assert(before + theirs@.take(i as int + 1) =~= (before + theirs@.take(i as int)).push(
                theirs@[i as int],
            ));
            i = i + 1;
        }
        assert(theirs@.take(theirs.len() as int) =~= theirs@);
    }
    let kept = sift(taken, held, true);
    *taken = kept;
    mark
}

/// A batch from the server never puts one change in twice: every entry taken
/// is past the point the log had been read to, no two share a seq, and they
/// keep the order they came in.
pub proof fn the_same_change_never_goes_in_twice(seqs: Seq<i64>, taken_through: i64)
    requires
        seqs.len() <= usize::MAX,
    ensures
        forall|a: int|
            0 <= a < fresh_positions(seqs, taken_through, seqs.len() as int).len() ==> {
                let p = #[trigger] fresh_positions(seqs, taken_through, seqs.len() as int)[a];
                p < seqs.len() && seqs[p as int] > taken_through
            },
        forall|a: int, b: int|
            0 <= a < b < fresh_positions(seqs, taken_through, seqs.len() as int).len() ==> {
                let p = #[trigger] fresh_positions(seqs, taken_through, seqs.len() as int)[a];
                let q = #[trigger] fresh_positions(seqs, taken_through, seqs.len() as int)[b];
                p < q && seqs[p as int] != seqs[q as int]
            },
{
    lemma_fresh_positions(seqs, taken_through, seqs.len() as int);
    let r = fresh_positions(seqs, taken_through, seqs.len() as int);
    assert forall|a: int, b: int| 0 <= a < b < r.len() implies r[a] < r[b] && seqs[r[a] as int]
        != seqs[r[b] as int] by {
        assert(fresh_at(seqs, taken_through, r[b] as int));
    }
}

/// Work taken from the server is never offered back to it: once their ids
/// have been remembered, none of them is among this copy's own unsent work,
/// as long as the log's unsent entries are entries the log holds.
pub proof fn work_taken_from_the_server_is_never_offered_back(
    unsent: Seq<u64>,
    taken: Seq<u64>,
    theirs: Seq<u64>,
    held: Seq<u64>,
    id: u64,
)
    requires
        forall|k: int| 0 <= k < unsent.len() ==> held.contains(#[trigger] unsent[k]),
        theirs.contains(id),
    ensures
        !sifted(unsent, sifted(taken + theirs, held, true), false).contains(id),
{
    let named = sifted(taken + theirs, held, true);
    lemma_sifted_contains(unsent, named, false, id);
    lemma_sifted_contains(taken + theirs, held, true, id);
    let k = choose|k: int| 0 <= k < theirs.len() && theirs[k] == id;
    assert((taken + theirs)[taken.len() + k] == id);
    if unsent.contains(id) {
        let j = choose|j: int| 0 <= j < unsent.len() && unsent[j] == id;
        assert(held.contains(unsent[j]));
    }
}

/// What is still this copy's own is exactly what it has not sent and did not
/// take from the server.
pub proof fn our_own_work_is_what_was_not_taken(unsent: Seq<u64>, taken: Seq<u64>, id: u64)
    ensures
        sifted(unsent, taken, false).contains(id) <==> (unsent.contains(id) && !taken.contains(id)),
{
    lemma_sifted_contains(unsent, taken, false, id);
}

/// A plan's link to the server: which plan it is there, and how far down
/// the server's log this copy has read.
pub struct Link {
    pub project: String,
    pub cursor: i64,
}

/// Where the read cursor stands after the log has been read to `head`:
/// only ever forward.
pub open spec fn remembered(cursor: i64, head: i64) -> i64 {
    if head <= cursor {
        cursor
    } else {
        head
    }
}

/// Where the read cursor stands after the log has been read to each of
/// `heads` in turn.
pub open spec fn read_through(cursor: i64, heads: Seq<i64>) -> i64
    decreases heads.len(),
{
    if heads.len() == 0 {
        cursor
    } else {
        remembered(read_through(cursor, heads.drop_last()), heads.last())
    }
}

/// Remember that the log has been read to `head`. Only ever forward: a
/// cursor that went backwards would ask for changes this copy already
/// holds, and merging would drop them, which looks exactly like a sync that
/// worked. A plan with no link has nothing to remember. Says whether the
/// link moved, and so is to be saved beside the plan.
pub fn remember_cursor(link: &mut Option<Link>, head: i64) -> (moved: bool)
    ensures
        (*old(link)).is_none() ==> (*final(link)).is_none() && !moved,
        *old(link) matches Some(l) ==> {
            &&& *final(link) matches Some(n)
            &&& n.project@ == l.project@
            &&& n.cursor == remembered(l.cursor, head)
            &&& moved == (head > l.cursor)
        },
{
    match link {
        Some(l) => {
            if head <= l.cursor {
                false
            } else {
                l.cursor = head;
                true
            }
        },
        None => false,
    }
}

/// The read cursor never goes back: reading the log to any run of heads
/// leaves it no earlier than it was after any shorter run, and at or past
/// every head read.
pub proof fn the_read_cursor_never_goes_back(cursor: i64, heads: Seq<i64>)
    ensures
        read_through(cursor, heads) >= cursor,
        forall|k: int| 0 <= k < heads.len() ==> read_through(cursor, heads) >= #[trigger] heads[k],
        forall|i: int, j: int|
            0 <= i <= j <= heads.len() ==> read_through(cursor, #[trigger] heads.take(i))
                <= read_through(cursor, #[trigger] heads.take(j)),
    decreases heads.len(),
{
    if heads.len() > 0 {
        let rest = heads.drop_last();
        the_read_cursor_never_goes_back(cursor, rest);
        assert forall|k: int| 0 <= k < heads.len() implies read_through(cursor, heads)
            >= #[trigger] heads[k] by {
            if k < rest.len() {
                assert(rest[k] == heads[k]);
            }
        }
        assert forall|i: int, j: int|
            0 <= i <= j <= heads.len() implies read_through(cursor, #[trigger] heads.take(i))
            <= read_through(cursor, #[trigger] heads.take(j)) by {
            if j == heads.len() {
                assert(heads.take(j) =~= heads);
                if i < j {
                    assert(heads.take(i) =~= rest.take(i));
                    assert(rest.take(rest.len() as int) =~= rest);
                    assert(read_through(cursor, rest.take(i)) <= read_through(
                        cursor,
                        rest.take(rest.len() as int),
                    ));
                }
            } else {
                assert(heads.take(i) =~= rest.take(i));
                assert(heads.take(j) =~= rest.take(j));
            }
        }
    } else {
        assert forall|i: int, j: int|
            0 <= i <= j <= heads.len() implies read_through(cursor, #[trigger] heads.take(i))
            <= read_through(cursor, #[trigger] heads.take(j)) by {
            assert(heads.take(i) =~= heads.take(j));
        }
    }
}

} // verus!
