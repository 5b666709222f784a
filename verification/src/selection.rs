//! Which rows are selected, in the order they were picked.
//!
//! The first row is the anchor: the one a shift-click extends from, and the
//! one commands that act on a single row act on.

use vstd::prelude::*;

verus! {

/// The selected rows, anchor first.
#[derive(Debug, Clone)]
pub struct Selection {
    pub rows: Vec<usize>,
}

/// The rows from `anchor` to `to`, both included, in the order a drag from
/// the anchor passes over them.
pub open spec fn span(anchor: usize, to: usize) -> Seq<usize> {
    if anchor <= to {
        Seq::new((to - anchor + 1) as nat, |k: int| (anchor + k) as usize)
    } else {
        Seq::new((anchor - to + 1) as nat, |k: int| (anchor - k) as usize)
    }
}

/// Whether a sequence runs strictly upwards.
pub open spec fn strictly_ascending(s: Seq<usize>) -> bool {
    forall|i: int, j: int| 0 <= i < j < s.len() ==> s[i] < s[j]
}

/// The entries of `s` below `limit`, in order.
pub open spec fn below(s: Seq<usize>, limit: usize) -> Seq<usize>
    decreases s.len(),
{
    if s.len() == 0 {
        s
    } else if s.last() < limit {
        below(s.drop_last(), limit).push(s.last())
    } else {
        below(s.drop_last(), limit)
    }
}

impl Selection {
    pub fn new() -> (s: Self)
        ensures
            s.rows@ == Seq::<usize>::empty(),
    {
        Selection { rows: Vec::new() }
    }

    /// Select one row and nothing else.
    pub fn select(&mut self, index: usize)
        ensures
            final(self).rows@ == seq![index],
    {
        self.rows = vec![index];
        proof {
            assert(self.rows@ =~= seq![index]);
        }
    }

    /// Extend the selection from its anchor to this row, the way a
    /// shift-click does; with nothing selected it selects the row.
    pub fn extend_selection(&mut self, index: usize)
        ensures
            old(self).rows@.len() > 0 ==> final(self).rows@ == span(old(self).rows@[0], index),
            old(self).rows@.len() == 0 ==> final(self).rows@ == seq![index],
    {
        if self.rows.len() == 0 {
            self.select(index);
            return;
        }
        let anchor = self.rows[0];
        let mut range: Vec<usize> = Vec::new();
        if anchor <= index {
            let mut at = anchor;
            loop
                invariant_except_break
                    anchor <= at <= index,
                    range@ == span(anchor, index).take(at - anchor),
                ensures
                    range@ == span(anchor, index),
                decreases index - at,
            {
                range.push(at);
                proof {
                    assert(range@ =~= span(anchor, index).take(at - anchor + 1));
                }
                if at == index {
                    proof {
                        assert(range@ =~= span(anchor, index));
                    }
                    break;
                }
                at += 1;
            }
            proof {
                assert(range@ =~= span(anchor, index));
            }
        } else {
            let mut at = anchor;
            loop
                invariant_except_break
                    index <= at <= anchor,
                    range@ == span(anchor, index).take(anchor - at),
                ensures
                    range@ == span(anchor, index),
                decreases at - index,
            {
                range.push(at);
                proof {
                    assert(range@ =~= span(anchor, index).take(anchor - at + 1));
                }
                if at == index {
                    proof {
                        assert(range@ =~= span(anchor, index));
                    }
                    break;
                }
                at -= 1;
            }
            proof {
                assert(range@ =~= span(anchor, index));
            }
        }
        self.rows = range;
    }

    /// Take a row out of the selection if it is in it, or add it at the end.
    pub fn toggle_selection(&mut self, index: usize)
        ensures
            match crate::state::position(old(self).rows@, index) {
                Some(i) => final(self).rows@ == old(self).rows@.remove(i as int),
                None => final(self).rows@ == old(self).rows@.push(index),
            },
    {
        proof {
            crate::state::lemma_position(self.rows@, index);
        }
        let mut i: usize = 0;
        while i < self.rows.len()
            invariant
                i <= self.rows.len(),
                self.rows@ == old(self).rows@,
                forall|k: int| 0 <= k < i ==> self.rows@[k] != index,
            decreases self.rows.len() - i,
        {
            if self.rows[i] == index {
                proof {
                    crate::state::lemma_position(self.rows@, index);
                    match crate::state::position(self.rows@, index) {
                        Some(j) => {
                            if j < i {
                                assert(self.rows@[j as int] != index);
                            } else if j > i {
                                assert(self.rows@[i as int] != index);
                            }
                        },
                        None => {
                            assert(self.rows@.contains(index));
                        },
                    }
                }
                self.rows.remove(i);
                return;
            }
            i += 1;
        }
        proof {
            crate::state::lemma_position(self.rows@, index);
            match crate::state::position(self.rows@, index) {
                Some(j) => {
                    assert(self.rows@[j as int] != index);
                },
                None => {},
            }
        }
        self.rows.push(index);
    }

    /// The anchor, if anything is selected.
    pub fn primary(&self) -> (r: Option<usize>)
        ensures
            r == (if self.rows@.len() > 0 {
                Some(self.rows@[0])
            } else {
                None
            }),
    {
        if self.rows.len() > 0 {
            Some(self.rows[0])
        } else {
            None
        }
    }

    pub fn is_selected(&self, index: usize) -> (r: bool)
        ensures
            r == self.rows@.contains(index),
    {
        let mut i: usize = 0;
        while i < self.rows.len()
            invariant
                i <= self.rows.len(),
                forall|k: int| 0 <= k < i ==> self.rows@[k] != index,
            decreases self.rows.len() - i,
        {
            if self.rows[i] == index {
                return true;
            }
            i += 1;
        }
        false
    }

    /// Drop any row past the end of a plan of `limit` rows, keeping the rest
    /// in order.
    pub fn clamp_selection(&mut self, limit: usize)
        ensures
            final(self).rows@ == below(old(self).rows@, limit),
    {
        let mut kept: Vec<usize> = Vec::new();
        let mut i: usize = 0;
        while i < self.rows.len()
            invariant
                i <= self.rows.len(),
                kept@ == below(self.rows@.take(i as int), limit),
            decreases self.rows.len() - i,
        {
            proof {
                assert(self.rows@.take(i + 1).drop_last() =~= self.rows@.take(i as int));
            }
            if self.rows[i] < limit {
                kept.push(self.rows[i]);
            }
            i += 1;
        }
        proof {
            assert(self.rows@.take(self.rows.len() as int) =~= self.rows@);
        }
        self.rows = kept;
    }

    /// The selected rows in ascending order, each once, which is what
    /// structural edits want.
    pub fn ordered_selection(&self) -> (r: Vec<usize>)
        ensures
            strictly_ascending(r@),
            r@.to_set() == self.rows@.to_set(),
    {
        let mut out: Vec<usize> = Vec::new();
        let mut i: usize = 0;
        while i < self.rows.len()
            invariant
                i <= self.rows.len(),
                strictly_ascending(out@),
                out@.to_set() == self.rows@.take(i as int).to_set(),
            decreases self.rows.len() - i,
        {
            let x = self.rows[i];
            let ghost before = out@;
            insert_sorted(&mut out, x);
            proof {
                assert(self.rows@.take(i + 1) =~= self.rows@.take(i as int).push(x));
                self.rows@.take(i as int).lemma_push_to_set_commute(x);
            }
            i += 1;
        }
        proof {
            assert(self.rows@.take(self.rows.len() as int) =~= self.rows@);
        }
        out
    }
}

/// Put `x` into an ascending list of distinct rows where it belongs, unless
/// it is there already.
fn insert_sorted(out: &mut Vec<usize>, x: usize)
    requires
        strictly_ascending(old(out)@),
    ensures
        strictly_ascending(final(out)@),
        final(out)@.to_set() == old(out)@.to_set().insert(x),
{
    let mut at: usize = 0;
    while at < out.len() && out[at] < x
        invariant
            at <= out.len(),
            forall|k: int| 0 <= k < at ==> out@[k] < x,
        decreases out.len() - at,
    {
        at += 1;
    }
    if at < out.len() && out[at] == x {
        proof {
            assert(out@.to_set().insert(x) =~= out@.to_set());
        }
        return;
    }
    let ghost before = out@;
    out.insert(at, x);
    proof {
        assert(out@ == before.insert(at as int, x));
        assert forall|i: int, j: int| 0 <= i < j < out@.len() implies out@[i] < out@[j] by {
            if j < at {
                assert(out@[i] == before[i] && out@[j] == before[j]);
            } else if j == at {
                assert(out@[i] == before[i]);
            } else if i == at {
                assert(out@[j] == before[j - 1]);
                assert(before[at as int] > x);
                if j - 1 > at {
                    assert(before[at as int] < before[j - 1]);
                }
            } else if i < at {
                assert(out@[i] == before[i] && out@[j] == before[j - 1]);
            } else {
                assert(out@[i] == before[i - 1] && out@[j] == before[j - 1]);
            }
        }
        assert forall|y: usize| out@.to_set().contains(y) <==> before.to_set().insert(x).contains(
            y,
        ) by {
            if out@.to_set().contains(y) {
                let k = choose|k: int| 0 <= k < out@.len() && out@[k] == y;
                if k < at {
                    assert(before[k] == y);
                } else if k > at {
                    assert(before[k - 1] == y);
                }
            }
            if before.to_set().contains(y) {
                let k = choose|k: int| 0 <= k < before.len() && before[k] == y;
                if k < at {
                    assert(out@[k] == y);
                } else {
                    assert(out@[k + 1] == y);
                }
            }
            if y == x {
                assert(out@[at as int] == x);
            }
        }
        assert(out@.to_set() =~= before.to_set().insert(x));
    }
}

/// Extending keeps the anchor first and reaches the row extended to.
pub proof fn extending_keeps_the_anchor(anchor: usize, to: usize)
    ensures
        span(anchor, to)[0] == anchor,
        span(anchor, to).last() == to,
        span(anchor, to).contains(to),
{
    let s = span(anchor, to);
    assert(s[s.len() - 1] == to);
}

/// What the clamp keeps is exactly the rows the plan still has.
pub proof fn clamping_keeps_what_is_left(s: Seq<usize>, limit: usize)
    ensures
        forall|x: usize| below(s, limit).contains(x) <==> (s.contains(x) && x < limit),
    decreases s.len(),
{
    if s.len() > 0 {
        let d = s.drop_last();
        clamping_keeps_what_is_left(d, limit);
        let b = below(s, limit);
        let bd = below(d, limit);
        assert forall|x: usize| b.contains(x) implies s.contains(x) && x < limit by {
            let k = choose|k: int| 0 <= k < b.len() && b[k] == x;
            if s.last() < limit && k == b.len() - 1 {
                assert(s[s.len() - 1] == x);
            } else {
                assert(bd[k] == x);
                assert(bd.contains(x));
                assert(d.contains(x));
                let j = choose|j: int| 0 <= j < d.len() && d[j] == x;
                assert(s[j] == x);
            }
        }
        assert forall|x: usize| s.contains(x) && x < limit implies b.contains(x) by {
            let k = choose|k: int| 0 <= k < s.len() && s[k] == x;
            if k < s.len() - 1 {
                assert(d[k] == x);
                assert(d.contains(x));
                assert(bd.contains(x));
                let j = choose|j: int| 0 <= j < bd.len() && bd[j] == x;
                assert(b[j] == x);
            } else {
                assert(b[b.len() - 1] == x);
            }
        }
    }
}

} // verus!
