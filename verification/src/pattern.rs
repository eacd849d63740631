//! Patterns: a fixed row count plus a compact, position-sorted list of note
//! events.

use vstd::prelude::*;

use crate::note_event::NoteEvent;

verus! {

/// A cell address inside a pattern; zero based. Events are ordered by row
/// first, channel second.
#[derive(Debug, Clone, Copy, PartialEq, Eq, PartialOrd, Ord, Structural)]
pub struct InPatternPosition {
    pub row: u16,
    pub channel: u8,
}

/// Strict "comes before" order on positions: row first, channel second.
pub open spec fn pos_lt(a: InPatternPosition, b: InPatternPosition) -> bool {
    a.row < b.row || (a.row == b.row && a.channel < b.channel)
}

impl InPatternPosition {
    /// Whether `self` is ordered strictly before `other`.
    pub fn is_before(self, other: InPatternPosition) -> (r: bool)
        ensures
            r == pos_lt(self, other),
    {
        self.row < other.row || (self.row == other.row && self.channel < other.channel)
    }
}

/// The event list is strictly increasing by position: no duplicates and
/// sorted in one condition.
pub open spec fn events_sorted(s: Seq<(InPatternPosition, NoteEvent)>) -> bool {
    forall|i: int, j: int| 0 <= i < j < s.len() ==> pos_lt(#[trigger] s[i].0, #[trigger] s[j].0)
}

/// Whether some event in `s` sits at position `pos`.
pub open spec fn has_pos(s: Seq<(InPatternPosition, NoteEvent)>, pos: InPatternPosition) -> bool {
    exists|i: int| 0 <= i < s.len() && (#[trigger] s[i]).0 == pos
}

/// The event at position `pos`, or `None` when the position is empty.
pub open spec fn event_of(
    s: Seq<(InPatternPosition, NoteEvent)>,
    pos: InPatternPosition,
) -> Option<NoteEvent> {
    if has_pos(s, pos) {
        let i = choose|i: int| 0 <= i < s.len() && (#[trigger] s[i]).0 == pos;
        Some(s[i].1)
    } else {
        None
    }
}

/// One mutation of a single pattern.
#[derive(Debug, Clone, Copy)]
pub enum PatternOperation {
    SetLength { new_len: u16 },
    SetEvent { position: InPatternPosition, event: NoteEvent },
    RemoveEvent { position: InPatternPosition },
}

/// A pattern: `rows` rows of up to `MAX_CHANNELS` cells, stored as a sorted
/// compact sequence of filled cells.
#[derive(Debug)]
pub struct Pattern {
    /// Row count; mutate it only through `set_length`.
    pub rows: u16,
    /// Filled cells, sorted by position; mutate them only through
    /// `set_event` and `remove_event` so they stay sorted.
    pub data: Vec<(InPatternPosition, NoteEvent)>,
}

impl Pattern {
    /// Largest permitted row count.
    pub const MAX_ROWS: u16 = 200;

    /// Row count a fresh pattern gets.
    pub const DEFAULT_ROWS: u16 = 64;

    /// The stored events, for contracts.
    pub open spec fn events(self) -> Seq<(InPatternPosition, NoteEvent)> {
        self.data@
    }

    /// The row count, for contracts.
    pub open spec fn spec_rows(self) -> u16 {
        self.rows
    }

    /// Structural invariant: at least one row, sorted events, all inside
    /// the pattern bounds.
    pub open spec fn wf(self) -> bool {
        &&& 1 <= self.rows <= Pattern::MAX_ROWS
        &&& events_sorted(self.data@)
        &&& forall|i: int|
            0 <= i < self.data@.len() ==> (#[trigger] self.data@[i]).0.row < self.rows
        &&& forall|i: int|
            0 <= i < self.data@.len() ==> (#[trigger] self.data@[i]).0.channel
                < crate::MAX_CHANNELS as u8
    }

    /// An empty pattern with the given row count.
    pub fn new(len: u16) -> (r: Pattern)
        requires
            1 <= len <= Pattern::MAX_ROWS,
        ensures
            r.wf(),
            r.spec_rows() == len,
            r.events() =~= Seq::<(InPatternPosition, NoteEvent)>::empty(),
    {
        Pattern { rows: len, data: Vec::new() }
    }

    /// The row count.
    pub fn row_count(&self) -> (r: u16)
        ensures
            r == self.spec_rows(),
    {
        self.rows
    }

    /// The row count, under the name an earlier interface used.
    pub fn get_row_count(&self) -> (r: u16)
        ensures
            r == self.spec_rows(),
    {
        self.rows
    }

    /// Whether the pattern holds no events at all.
    pub fn is_empty(&self) -> (r: bool)
        ensures
            r == (self.events().len() == 0),
    {
        self.data.len() == 0
    }

    /// How many cells are filled.
    pub fn event_count(&self) -> (r: usize)
        ensures
            r == self.events().len(),
    {
        self.data.len()
    }

    /// The `i`-th stored event, in position order.
    pub fn event_at(&self, i: usize) -> (r: (InPatternPosition, NoteEvent))
        requires
            i < self.events().len(),
        ensures
            r == self.events()[i as int],
    {
        self.data[i]
    }

    /// Index of the first stored event whose position is not before `pos`.
    fn lower_bound(&self, pos: InPatternPosition) -> (idx: usize)
        requires
            events_sorted(self.data@),
        ensures
            idx <= self.data@.len(),
            forall|k: int| 0 <= k < idx ==> pos_lt((#[trigger] self.data@[k]).0, pos),
            forall|k: int|
                idx <= k < self.data@.len() ==> !pos_lt((#[trigger] self.data@[k]).0, pos),
    {
        let mut lo: usize = 0;
        let mut hi: usize = self.data.len();
        while lo < hi
            invariant
                lo <= hi <= self.data@.len(),
                events_sorted(self.data@),
                forall|k: int| 0 <= k < lo ==> pos_lt((#[trigger] self.data@[k]).0, pos),
                forall|k: int|
                    hi <= k < self.data@.len() ==> !pos_lt((#[trigger] self.data@[k]).0, pos),
            decreases hi - lo,
        {
            let mid = lo + (hi - lo) / 2;
            let entry = self.data[mid];
            if entry.0.is_before(pos) {
                lo = mid + 1;
            } else {
                hi = mid;
            }
        }
        lo
    }

    /// Look up the event at a position.
    pub fn get_event(&self, index: InPatternPosition) -> (r: Option<NoteEvent>)
        requires
            self.wf(),
        ensures
            r == event_of(self.events(), index),
    {
        let idx = self.lower_bound(index);
        if idx < self.data.len() {
            let entry = self.data[idx];
            if entry.0 == index {
                proof {
                    assert(has_pos(self.data@, index));
                    let i = choose|i: int|
                        0 <= i < self.data@.len() && (#[trigger] self.data@[i]).0 == index;
                    assert(i == idx as int) by {
                        if i < idx as int {
                            assert(pos_lt(self.data@[i].0, index));
                        }
                        if i > idx as int {
                            assert(pos_lt(self.data@[idx as int].0, self.data@[i].0));
                        }
                    }
                }
                Some(entry.1)
            } else {
                proof {
                    assert(!has_pos(self.data@, index)) by {
                        if has_pos(self.data@, index) {
                            let i = choose|i: int|
                                0 <= i < self.data@.len() && (#[trigger] self.data@[i]).0
                                    == index;
                            if i < idx as int {
                                assert(pos_lt(self.data@[i].0, index));
                            } else if i > idx as int {
                                assert(pos_lt(self.data@[idx as int].0, self.data@[i].0));
                                assert(!pos_lt(self.data@[i].0, index));
                            }
                        }
                    }
                }
                None
            }
        } else {
            proof {
                assert(!has_pos(self.data@, index)) by {
                    if has_pos(self.data@, index) {
                        let i = choose|i: int|
                            0 <= i < self.data@.len() && (#[trigger] self.data@[i]).0 == index;
                        assert(pos_lt(self.data@[i].0, index));
                    }
                }
            }
            None
        }
    }

    /// Write an event, overwriting whatever the cell held.
    pub fn set_event(&mut self, position: InPatternPosition, event: NoteEvent)
        requires
            old(self).wf(),
            position.row < old(self).spec_rows(),
            position.channel < crate::MAX_CHANNELS as u8,
        ensures
            final(self).wf(),
            final(self).spec_rows() == old(self).spec_rows(),
            event_of(final(self).events(), position) == Some(event),
            forall|q: InPatternPosition|
                q != position ==> #[trigger] event_of(final(self).events(), q) == event_of(
                    old(self).events(),
                    q,
                ),
    {
        let ghost pre = self.data@;
        let idx = self.lower_bound(position);
        if idx < self.data.len() && self.data[idx].0 == position {
            self.data.set(idx, (position, event));
            proof {
                lemma_event_update(pre, self.data@, idx as int, position, event);
            }
        } else {
            proof {
                if idx < pre.len() {
                    assert(!pos_lt(pre[idx as int].0, position));
                    assert(pre[idx as int].0 != position);
                }
            }
            self.data.insert(idx, (position, event));
            proof {
                lemma_event_insert(pre, self.data@, idx as int, position, event);
            }
        }
    }

    /// Clear a cell; a position that holds no event is left as it is.
    pub fn remove_event(&mut self, position: InPatternPosition)
        requires
            old(self).wf(),
        ensures
            final(self).wf(),
            final(self).spec_rows() == old(self).spec_rows(),
            event_of(final(self).events(), position) == Option::<NoteEvent>::None,
            forall|q: InPatternPosition|
                q != position ==> #[trigger] event_of(final(self).events(), q) == event_of(
                    old(self).events(),
                    q,
                ),
    {
        let ghost pre = self.data@;
        let idx = self.lower_bound(position);
        if idx < self.data.len() && self.data[idx].0 == position {
            self.data.remove(idx);
            proof {
                lemma_event_remove(pre, self.data@, idx as int, position);
            }
        } else {
            proof {
                assert(!has_pos(pre, position)) by {
                    if has_pos(pre, position) {
                        let i = choose|i: int|
                            0 <= i < pre.len() && (#[trigger] pre[i]).0 == position;
                        if i < idx as int {
                            assert(pos_lt(pre[i].0, position));
                        } else if idx < pre.len() && i > idx as int {
                            assert(pos_lt(pre[idx as int].0, pre[i].0));
                            assert(!pos_lt(pre[i].0, position));
                        } else if idx < pre.len() && i == idx as int {
                            assert(pre[idx as int].0 != position);
                        } else {
                            assert(pos_lt(pre[i].0, position));
                        }
                    }
                }
            }
        }
    }

    /// Change the row count; events on removed rows are dropped.
    pub fn set_length(&mut self, new_len: u16)
        requires
            old(self).wf(),
            1 <= new_len <= Pattern::MAX_ROWS,
        ensures
            final(self).wf(),
            final(self).spec_rows() == new_len,
            forall|q: InPatternPosition|
                q.row < new_len ==> #[trigger] event_of(final(self).events(), q) == event_of(
                    old(self).events(),
                    q,
                ),
            forall|q: InPatternPosition|
                q.row >= new_len ==> #[trigger] event_of(final(self).events(), q)
                    == Option::<NoteEvent>::None,
    {
        let ghost pre = self.data@;
        if new_len < self.rows {
            let cut = self.lower_bound(InPatternPosition { row: new_len, channel: 0 });
            self.data.truncate(cut);
            proof {
                lemma_event_truncate(pre, self.data@, cut as int, new_len);
            }
        } else {
            proof {
                assert forall|q: InPatternPosition| q.row >= new_len implies #[trigger] event_of(
                    self.data@,
                    q,
                ) == Option::<NoteEvent>::None by {
                    if has_pos(self.data@, q) {
                        let i = choose|i: int|
                            0 <= i < self.data@.len() && (#[trigger] self.data@[i]).0 == q;
                        assert(self.data@[i].0.row < self.rows);
                    }
                }
            }
        }
        self.rows = new_len;
    }

    /// Whether applying `op` to this pattern is meaningful.
    pub fn operation_is_valid(&self, op: &PatternOperation) -> (r: bool)
        ensures
            r == pattern_op_valid(*self, *op),
    {
        match op {
            PatternOperation::SetLength { new_len } => 1 <= *new_len && *new_len
                <= Pattern::MAX_ROWS,
            PatternOperation::SetEvent { position, event: _ } => position.row < self.rows
                && position.channel < crate::MAX_CHANNELS as u8,
            PatternOperation::RemoveEvent { position: _ } => true,
        }
    }

    /// Apply a pattern operation that `operation_is_valid` accepted.
    pub fn apply_operation(&mut self, op: PatternOperation)
        requires
            old(self).wf(),
            pattern_op_valid(*old(self), op),
        ensures
            final(self).wf(),
            pattern_op_applied(*old(self), *final(self), op),
    {
        match op {
            PatternOperation::SetLength { new_len } => self.set_length(new_len),
            PatternOperation::SetEvent { position, event } => self.set_event(position, event),
            PatternOperation::RemoveEvent { position } => self.remove_event(position),
        }
    }

    /// The half-open index range of the events stored on one row. Their
    /// positions all name that row, and they appear in channel order.
    pub fn row_range(&self, row: u16) -> (r: (usize, usize))
        requires
            self.wf(),
        ensures
            r.0 <= r.1 <= self.events().len(),
            forall|i: int| r.0 <= i < r.1 ==> (#[trigger] self.events()[i]).0.row == row,
            forall|i: int| 0 <= i < r.0 ==> (#[trigger] self.events()[i]).0.row < row,
            forall|i: int|
                r.1 <= i < self.events().len() ==> (#[trigger] self.events()[i]).0.row > row,
    {
        let start = self.lower_bound(InPatternPosition { row, channel: 0 });
        if row == u16::MAX {
            // every position on this row is reachable: channel stays below 64
            let end = self.data.len();
            proof {
                assert forall|i: int| start <= i < self.data@.len() implies (
                #[trigger] self.data@[i]).0.row == row by {
                    assert(!pos_lt(self.data@[i].0, InPatternPosition { row, channel: 0 }));
                }
            }
            (start, end)
        } else {
            let end = self.lower_bound(InPatternPosition { row: row + 1, channel: 0 });
            proof {
                assert(start <= end) by {
                    if start > end && end < self.data@.len() {
                        assert(pos_lt(
                            self.data@[end as int].0,
                            InPatternPosition { row, channel: 0 },
                        ));
                        assert(!pos_lt(
                            self.data@[end as int].0,
                            InPatternPosition { row: (row + 1) as u16, channel: 0 },
                        ));
                    }
                }
                assert forall|i: int| start <= i < end implies (#[trigger] self.data@[i]).0.row
                    == row by {
                    assert(!pos_lt(self.data@[i].0, InPatternPosition { row, channel: 0 }));
                    assert(pos_lt(
                        self.data@[i].0,
                        InPatternPosition { row: (row + 1) as u16, channel: 0 },
                    ));
                }
            }
            (start, end)
        }
    }
}

/// What one pattern operation does: the exact relation between the pattern
/// before and after `apply_operation`.
pub open spec fn pattern_op_applied(pre: Pattern, post: Pattern, op: PatternOperation) -> bool {
    match op {
        PatternOperation::SetLength { new_len } => {
            &&& post.spec_rows() == new_len
            &&& forall|q: InPatternPosition|
                q.row < new_len ==> #[trigger] event_of(post.events(), q) == event_of(
                    pre.events(),
                    q,
                )
            &&& forall|q: InPatternPosition|
                q.row >= new_len ==> #[trigger] event_of(post.events(), q)
                    == Option::<NoteEvent>::None
        },
        PatternOperation::SetEvent { position, event } => {
            &&& post.spec_rows() == pre.spec_rows()
            &&& event_of(post.events(), position) == Some(event)
            &&& forall|q: InPatternPosition|
                q != position ==> #[trigger] event_of(post.events(), q) == event_of(
                    pre.events(),
                    q,
                )
        },
        PatternOperation::RemoveEvent { position } => {
            &&& post.spec_rows() == pre.spec_rows()
            &&& event_of(post.events(), position) == Option::<NoteEvent>::None
            &&& forall|q: InPatternPosition|
                q != position ==> #[trigger] event_of(post.events(), q) == event_of(
                    pre.events(),
                    q,
                )
        },
    }
}

/// Validity of a pattern operation against the pattern it addresses.
pub open spec fn pattern_op_valid(p: Pattern, op: PatternOperation) -> bool {
    match op {
        PatternOperation::SetLength { new_len } => 1 <= new_len <= Pattern::MAX_ROWS,
        PatternOperation::SetEvent { position, event: _ } => position.row < p.spec_rows()
            && position.channel < crate::MAX_CHANNELS as u8,
        PatternOperation::RemoveEvent { position: _ } => true,
    }
}

impl Default for Pattern {
    /// An empty pattern with the default row count.
    fn default() -> (r: Pattern)
        ensures
            r.wf(),
            r.spec_rows() == Pattern::DEFAULT_ROWS,
            r.events() =~= Seq::<(InPatternPosition, NoteEvent)>::empty(),
    {
        Pattern::new(Pattern::DEFAULT_ROWS)
    }
}

/// Events on one row come in strictly increasing channel order: the slice
/// `row_range` names cannot hold two events for one channel, and channels
/// grow left to right.
pub proof fn lemma_row_slice_channels(p: Pattern, row: u16, a: int, b: int)
    requires
        p.wf(),
        0 <= a <= b <= p.events().len(),
        forall|i: int| a <= i < b ==> (#[trigger] p.events()[i]).0.row == row,
    ensures
        forall|i: int, j: int|
            a <= i < j < b ==> (#[trigger] p.events()[i]).0.channel < (
            #[trigger] p.events()[j]).0.channel,
{
    assert forall|i: int, j: int| a <= i < j < b implies (#[trigger] p.events()[i]).0.channel < (
    #[trigger] p.events()[j]).0.channel by {
        assert(pos_lt(p.events()[i].0, p.events()[j].0));
    }
}

proof fn lemma_index_unique(s: Seq<(InPatternPosition, NoteEvent)>, i: int, pos: InPatternPosition)
    requires
        events_sorted(s),
        0 <= i < s.len(),
        s[i].0 == pos,
    ensures
        event_of(s, pos) == Some(s[i].1),
{
    assert(has_pos(s, pos));
    let j = choose|j: int| 0 <= j < s.len() && (#[trigger] s[j]).0 == pos;
    if j < i {
        assert(pos_lt(s[j].0, s[i].0));
    } else if j > i {
        assert(pos_lt(s[i].0, s[j].0));
    }
}

proof fn lemma_event_update(
    pre: Seq<(InPatternPosition, NoteEvent)>,
    post: Seq<(InPatternPosition, NoteEvent)>,
    idx: int,
    pos: InPatternPosition,
    ev: NoteEvent,
)
    requires
        events_sorted(pre),
        0 <= idx < pre.len(),
        pre[idx].0 == pos,
        post == pre.update(idx, (pos, ev)),
    ensures
        events_sorted(post),
        event_of(post, pos) == Some(ev),
        forall|q: InPatternPosition| q != pos ==> #[trigger] event_of(post, q) == event_of(pre, q),
        forall|i: int| 0 <= i < post.len() ==> (#[trigger] post[i]).0 == pre[i].0,
{
    assert(events_sorted(post));
    lemma_index_unique(post, idx, pos);
    assert forall|q: InPatternPosition| q != pos implies #[trigger] event_of(post, q) == event_of(
        pre,
        q,
    ) by {
        if has_pos(pre, q) {
            let i = choose|i: int| 0 <= i < pre.len() && (#[trigger] pre[i]).0 == q;
            assert(post[i].0 == q && post[i].1 == pre[i].1);
            lemma_index_unique(pre, i, q);
            lemma_index_unique(post, i, q);
        } else if has_pos(post, q) {
            let i = choose|i: int| 0 <= i < post.len() && (#[trigger] post[i]).0 == q;
            assert(pre[i].0 == q);
        }
    }
}

proof fn lemma_event_insert(
    pre: Seq<(InPatternPosition, NoteEvent)>,
    post: Seq<(InPatternPosition, NoteEvent)>,
    idx: int,
    pos: InPatternPosition,
    ev: NoteEvent,
)
    requires
        events_sorted(pre),
        0 <= idx <= pre.len(),
        forall|k: int| 0 <= k < idx ==> pos_lt((#[trigger] pre[k]).0, pos),
        forall|k: int| idx <= k < pre.len() ==> !pos_lt((#[trigger] pre[k]).0, pos),
        forall|k: int| idx <= k < pre.len() ==> (#[trigger] pre[k]).0 != pos,
        post == pre.insert(idx, (pos, ev)),
    ensures
        events_sorted(post),
        event_of(post, pos) == Some(ev),
        forall|q: InPatternPosition| q != pos ==> #[trigger] event_of(post, q) == event_of(pre, q),
{
    assert forall|i: int, j: int| 0 <= i < j < post.len() implies pos_lt(
        #[trigger] post[i].0,
        #[trigger] post[j].0,
    ) by {
        if i < idx && j == idx {
            assert(post[i] == pre[i]);
        } else if i == idx && j > idx {
            assert(post[j] == pre[j - 1]);
            assert(!pos_lt(pre[j - 1].0, pos));
            assert(pre[j - 1].0 != pos);
            // total order on distinct positions: not before and not equal means after
            assert(pos_lt(pos, pre[j - 1].0));
        } else if i < idx && j > idx {
            assert(post[i] == pre[i] && post[j] == pre[j - 1]);
            if idx <= i {
            } else if i < idx && j - 1 < idx {
            } else if i == j - 1 {
                assert(pos_lt(pre[i].0, pos));
                assert(!pos_lt(pre[j - 1].0, pos));
                assert(pre[i].0 == pre[j - 1].0);
                assert(false);
            } else {
                assert(pos_lt(pre[i].0, pre[j - 1].0));
            }
        } else if i < idx && j < idx {
            assert(post[i] == pre[i] && post[j] == pre[j]);
        } else {
            assert(i > idx || (i == idx && j > idx) || (i < idx));
            if i > idx {
                assert(post[i] == pre[i - 1] && post[j] == pre[j - 1]);
                assert(pos_lt(pre[i - 1].0, pre[j - 1].0));
            }
        }
    }
    lemma_index_unique(post, idx, pos);
    assert forall|q: InPatternPosition| q != pos implies #[trigger] event_of(post, q) == event_of(
        pre,
        q,
    ) by {
        if has_pos(pre, q) {
            let i = choose|i: int| 0 <= i < pre.len() && (#[trigger] pre[i]).0 == q;
            if i < idx {
                assert(post[i] == pre[i]);
                lemma_index_unique(pre, i, q);
                lemma_index_unique(post, i, q);
            } else {
                assert(post[i + 1] == pre[i]);
                lemma_index_unique(pre, i, q);
                lemma_index_unique(post, i + 1, q);
            }
        } else if has_pos(post, q) {
            let i = choose|i: int| 0 <= i < post.len() && (#[trigger] post[i]).0 == q;
            if i < idx {
                assert(pre[i].0 == q);
            } else if i > idx {
                assert(pre[i - 1].0 == q);
            }
        }
    }
}

proof fn lemma_event_remove(
    pre: Seq<(InPatternPosition, NoteEvent)>,
    post: Seq<(InPatternPosition, NoteEvent)>,
    idx: int,
    pos: InPatternPosition,
)
    requires
        events_sorted(pre),
        0 <= idx < pre.len(),
        pre[idx].0 == pos,
        post == pre.remove(idx),
    ensures
        events_sorted(post),
        event_of(post, pos) == Option::<NoteEvent>::None,
        forall|q: InPatternPosition| q != pos ==> #[trigger] event_of(post, q) == event_of(pre, q),
{
    assert forall|i: int, j: int| 0 <= i < j < post.len() implies pos_lt(
        #[trigger] post[i].0,
        #[trigger] post[j].0,
    ) by {
        let pi: int = if i < idx { i } else { i + 1 };
        let pj: int = if j < idx { j } else { j + 1 };
        assert(post[i] == pre[pi] && post[j] == pre[pj]);
        assert(pos_lt(pre[pi].0, pre[pj].0));
    }
    assert(!has_pos(post, pos)) by {
        if has_pos(post, pos) {
            let i = choose|i: int| 0 <= i < post.len() && (#[trigger] post[i]).0 == pos;
            let pi: int = if i < idx { i } else { i + 1 };
            assert(post[i] == pre[pi]);
            if pi < idx {
                assert(pos_lt(pre[pi].0, pre[idx].0));
            } else {
                assert(pos_lt(pre[idx].0, pre[pi].0));
            }
        }
    }
    assert forall|q: InPatternPosition| q != pos implies #[trigger] event_of(post, q) == event_of(
        pre,
        q,
    ) by {
        if has_pos(pre, q) {
            let i = choose|i: int| 0 <= i < pre.len() && (#[trigger] pre[i]).0 == q;
            assert(i != idx);
            let ni: int = if i < idx { i } else { i - 1 };
            assert(post[ni] == pre[i]);
            lemma_index_unique(pre, i, q);
            lemma_index_unique(post, ni, q);
        } else if has_pos(post, q) {
            let i = choose|i: int| 0 <= i < post.len() && (#[trigger] post[i]).0 == q;
            let pi: int = if i < idx { i } else { i + 1 };
            assert(pre[pi].0 == q);
        }
    }
}

proof fn lemma_event_truncate(
    pre: Seq<(InPatternPosition, NoteEvent)>,
    post: Seq<(InPatternPosition, NoteEvent)>,
    cut: int,
    new_len: u16,
)
    requires
        events_sorted(pre),
        0 <= cut <= pre.len(),
        forall|k: int|
            0 <= k < cut ==> pos_lt(
                (#[trigger] pre[k]).0,
                InPatternPosition { row: new_len, channel: 0 },
            ),
        forall|k: int|
            cut <= k < pre.len() ==> !pos_lt(
                (#[trigger] pre[k]).0,
                InPatternPosition { row: new_len, channel: 0 },
            ),
        post == pre.take(cut),
    ensures
        events_sorted(post),
        forall|q: InPatternPosition|
            q.row < new_len ==> #[trigger] event_of(post, q) == event_of(pre, q),
        forall|q: InPatternPosition|
            q.row >= new_len ==> #[trigger] event_of(post, q) == Option::<NoteEvent>::None,
        forall|i: int| 0 <= i < post.len() ==> (#[trigger] post[i]).0.row < new_len,
{
    assert forall|i: int| 0 <= i < post.len() implies (#[trigger] post[i]).0.row < new_len by {
        assert(pos_lt(pre[i].0, InPatternPosition { row: new_len, channel: 0 }));
    }
    assert forall|q: InPatternPosition| q.row < new_len implies #[trigger] event_of(post, q)
        == event_of(pre, q) by {
        if has_pos(pre, q) {
            let i = choose|i: int| 0 <= i < pre.len() && (#[trigger] pre[i]).0 == q;
            assert(pos_lt(pre[i].0, InPatternPosition { row: new_len, channel: 0 }));
            assert(i < cut);
            assert(post[i] == pre[i]);
            lemma_index_unique(pre, i, q);
            lemma_index_unique(post, i, q);
        } else if has_pos(post, q) {
            let i = choose|i: int| 0 <= i < post.len() && (#[trigger] post[i]).0 == q;
            assert(pre[i].0 == q);
        }
    }
    assert forall|q: InPatternPosition| q.row >= new_len implies #[trigger] event_of(post, q)
        == Option::<NoteEvent>::None by {
        if has_pos(post, q) {
            let i = choose|i: int| 0 <= i < post.len() && (#[trigger] post[i]).0 == q;
            assert(post[i].0.row < new_len);
        }
    }
}

} // verus!

verus! {

impl Clone for Pattern {
    /// Cloning copies the row count and every cell.
    fn clone(&self) -> (r: Self)
        ensures
            r.spec_rows() == self.spec_rows(),
            r.events() == self.events(),
    {
        let mut data: Vec<(InPatternPosition, NoteEvent)> = Vec::new();
        let mut i: usize = 0;
        while i < self.data.len()
            invariant
                i <= self.data@.len(),
                data@ == self.data@.take(i as int),
            decreases self.data@.len() - i,
        {
            data.push(self.data[i]);
            proof {
                assert(data@ =~= self.data@.take(i + 1));
            }
            i += 1;
        }
        proof {
            assert(data@ =~= self.data@);
        }
        Pattern { rows: self.rows, data }
    }
}

/// A sorted event list is determined by its cells: two sorted lists that
/// answer every position lookup alike are the same list.
pub proof fn lemma_sorted_events_canonical(
    a: Seq<(InPatternPosition, NoteEvent)>,
    b: Seq<(InPatternPosition, NoteEvent)>,
)
    requires
        events_sorted(a),
        events_sorted(b),
        forall|q: InPatternPosition| #[trigger] event_of(a, q) == event_of(b, q),
    ensures
        a =~= b,
    decreases a.len(),
{
    if a.len() == 0 {
        if b.len() > 0 {
            assert(has_pos(b, b[0].0));
            lemma_head_lookup(b);
            assert(event_of(a, b[0].0) is None);
        }
    } else {
        lemma_head_lookup(a);
        assert(event_of(b, a[0].0) == Some(a[0].1));
        assert(has_pos(b, a[0].0));
        assert(b.len() > 0);
        lemma_head_lookup(b);
        assert(event_of(a, b[0].0) == Some(b[0].1));
        assert(has_pos(a, b[0].0));
        let j = choose|j: int| 0 <= j < b.len() && (#[trigger] b[j]).0 == a[0].0;
        let i = choose|i: int| 0 <= i < a.len() && (#[trigger] a[i]).0 == b[0].0;
        assert(a[0].0 == b[0].0) by {
            if j > 0 && i > 0 {
                assert(pos_lt(b[0].0, b[j].0));
                assert(pos_lt(a[0].0, a[i].0));
            }
        }
        assert(a[0].1 == b[0].1);
        let at = a.subrange(1, a.len() as int);
        let bt = b.subrange(1, b.len() as int);
        assert(events_sorted(at)) by {
            assert forall|x: int, y: int| 0 <= x < y < at.len() implies pos_lt(
                #[trigger] at[x].0,
                #[trigger] at[y].0,
            ) by {
                assert(at[x] == a[x + 1] && at[y] == a[y + 1]);
            }
        }
        assert(events_sorted(bt)) by {
            assert forall|x: int, y: int| 0 <= x < y < bt.len() implies pos_lt(
                #[trigger] bt[x].0,
                #[trigger] bt[y].0,
            ) by {
                assert(bt[x] == b[x + 1] && bt[y] == b[y + 1]);
            }
        }
        assert forall|q: InPatternPosition| #[trigger] event_of(at, q) == event_of(bt, q) by {
            if q == a[0].0 {
                assert(!has_pos(at, q)) by {
                    if has_pos(at, q) {
                        let k = choose|k: int| 0 <= k < at.len() && (#[trigger] at[k]).0 == q;
                        assert(at[k] == a[k + 1]);
                        assert(pos_lt(a[0].0, a[k + 1].0));
                    }
                }
                assert(!has_pos(bt, q)) by {
                    if has_pos(bt, q) {
                        let k = choose|k: int| 0 <= k < bt.len() && (#[trigger] bt[k]).0 == q;
                        assert(bt[k] == b[k + 1]);
                        assert(pos_lt(b[0].0, b[k + 1].0));
                    }
                }
            } else {
                lemma_lookup_tail(a, q);
                lemma_lookup_tail(b, q);
            }
        }
        lemma_sorted_events_canonical(at, bt);
        assert forall|k: int| 0 <= k < a.len() implies a[k] == b[k] by {
            if k > 0 {
                assert(a[k] == at[k - 1] && b[k] == bt[k - 1]);
            } else {
                assert(a[0].0 == b[0].0 && a[0].1 == b[0].1);
                assert(a[0] == (a[0].0, a[0].1));
                assert(b[0] == (b[0].0, b[0].1));
            }
        }
    }
}

/// The head of a sorted list is what lookup at its position returns.
proof fn lemma_head_lookup(s: Seq<(InPatternPosition, NoteEvent)>)
    requires
        events_sorted(s),
        s.len() > 0,
    ensures
        event_of(s, s[0].0) == Some(s[0].1),
{
    assert(has_pos(s, s[0].0));
    let i = choose|i: int| 0 <= i < s.len() && (#[trigger] s[i]).0 == s[0].0;
    if i > 0 {
        assert(pos_lt(s[0].0, s[i].0));
    }
}

/// Dropping the head changes no lookup at other positions.
proof fn lemma_lookup_tail(s: Seq<(InPatternPosition, NoteEvent)>, q: InPatternPosition)
    requires
        events_sorted(s),
        s.len() > 0,
        q != s[0].0,
    ensures
        event_of(s.subrange(1, s.len() as int), q) == event_of(s, q),
{
    let t = s.subrange(1, s.len() as int);
    if has_pos(s, q) {
        let i = choose|i: int| 0 <= i < s.len() && (#[trigger] s[i]).0 == q;
        assert(i != 0);
        assert(t[i - 1] == s[i]);
        assert(has_pos(t, q));
        let k = choose|k: int| 0 <= k < t.len() && (#[trigger] t[k]).0 == q;
        assert(t[k] == s[k + 1]);
        assert(event_of(t, q) == Some(t[k].1));
        assert(event_of(s, q) == Some(s[i].1)) by {
            let m = choose|m: int| 0 <= m < s.len() && (#[trigger] s[m]).0 == q;
            if m < i {
                assert(pos_lt(s[m].0, s[i].0));
            } else if m > i {
                assert(pos_lt(s[i].0, s[m].0));
            }
        }
        assert(s[k + 1].1 == s[i].1) by {
            if k + 1 < i {
                assert(pos_lt(s[k + 1].0, s[i].0));
            } else if k + 1 > i {
                assert(pos_lt(s[i].0, s[k + 1].0));
            }
        }
    } else {
        assert(!has_pos(t, q)) by {
            if has_pos(t, q) {
                let k = choose|k: int| 0 <= k < t.len() && (#[trigger] t[k]).0 == q;
                assert(t[k] == s[k + 1]);
                assert(has_pos(s, q));
            }
        }
    }
}

} // verus!
