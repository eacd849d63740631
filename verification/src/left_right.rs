//! A sequential model of a double-buffered snapshot: two copies of a value,
//! a four-bit state word, and an operation buffer that replays edits so the
//! two copies converge. The writer publishes by toggling the read pointer;
//! a reader takes whole snapshots and never observes a half-applied edit.
//!
//! Deployed concurrently, the reader side runs on another thread over the
//! same state word; this model keeps the protocol, its state word and its
//! replay logic, and verifies them against explicit guard capabilities
//! instead of borrows.

use vstd::prelude::*;

verus! {

/// A value that can absorb edit operations deterministically.
///
/// `t_like` is equality up to representation, `absorb_rel` the exact
/// before/after relation of one absorbed operation. The proof obligations
/// pin down that absorbing is a function of the state up to `t_like`, which
/// is what makes replay across the two buffers converge.
pub trait Absorb<O>: Sized {
    /// Structural invariant that absorbing preserves.
    spec fn t_wf(a: Self) -> bool;

    /// Equality of two values up to representation.
    spec fn t_like(a: Self, b: Self) -> bool;

    /// What absorbing one operation does.
    spec fn absorb_rel(pre: Self, op: O, post: Self) -> bool;

    /// `t_like` is reflexive.
    proof fn t_like_refl(a: Self)
        ensures
            Self::t_like(a, a),
    ;

    /// `t_like` is symmetric.
    proof fn t_like_sym(a: Self, b: Self)
        requires
            Self::t_like(a, b),
        ensures
            Self::t_like(b, a),
    ;

    /// `t_like` is transitive.
    proof fn t_like_trans(a: Self, b: Self, c: Self)
        requires
            Self::t_like(a, b),
            Self::t_like(b, c),
        ensures
            Self::t_like(a, c),
    ;

    /// Absorbing the same operation in states that agree ends in states
    /// that agree.
    proof fn absorb_deterministic(pre1: Self, post1: Self, pre2: Self, post2: Self, op: O)
        requires
            Self::t_wf(pre1),
            Self::t_wf(pre2),
            Self::t_wf(post1),
            Self::t_wf(post2),
            Self::t_like(pre1, pre2),
            Self::absorb_rel(pre1, op, post1),
            Self::absorb_rel(pre2, op, post2),
        ensures
            Self::t_like(post1, post2),
    ;

    /// The absorb relation only reads the state up to `t_like`.
    proof fn absorb_congruent(pre1: Self, pre2: Self, op: O, post: Self)
        requires
            Self::t_wf(pre1),
            Self::t_wf(pre2),
            Self::t_like(pre1, pre2),
            Self::absorb_rel(pre1, op, post),
        ensures
            Self::absorb_rel(pre2, op, post),
    ;

    /// Produce a second value that agrees with this one.
    fn duplicate(&self) -> (r: Self)
        requires
            Self::t_wf(*self),
        ensures
            Self::t_wf(r),
            Self::t_like(*self, r),
    ;

    /// Absorb one operation.
    fn absorb(&mut self, operation: O)
        requires
            Self::t_wf(*old(self)),
        ensures
            Self::t_wf(*final(self)),
            Self::absorb_rel(*old(self), operation, *final(self)),
    ;
}

/// An operation that can be handed to both buffers.
pub trait DuplicateOp: Sized {
    /// Produce the same operation once more.
    fn duplicate(&self) -> (r: Self)
        ensures
            r == *self,
    ;
}

/// `b` is reachable from `a` by absorbing `ops` in order, through
/// well-formed intermediate states.
pub open spec fn absorb_seq_rel<T: Absorb<O>, O>(a: T, ops: Seq<O>, b: T) -> bool
    decreases ops.len(),
{
    if ops.len() == 0 {
        T::t_like(a, b)
    } else {
        exists|mid: T|
            T::t_wf(mid) && #[trigger] T::absorb_rel(a, ops[0], mid) && absorb_seq_rel(
                mid,
                ops.subrange(1, ops.len() as int),
                b,
            )
    }
}

/// Replay only reads its starting state up to `t_like`.
pub proof fn lemma_seq_rel_congruent<T: Absorb<O>, O>(a1: T, a2: T, ops: Seq<O>, b: T)
    requires
        T::t_wf(a1),
        T::t_wf(a2),
        T::t_like(a1, a2),
        absorb_seq_rel(a1, ops, b),
    ensures
        absorb_seq_rel(a2, ops, b),
    decreases ops.len(),
{
    if ops.len() == 0 {
        T::t_like_sym(a1, a2);
        T::t_like_trans(a2, a1, b);
    } else {
        let mid = choose|mid: T|
            T::t_wf(mid) && #[trigger] T::absorb_rel(a1, ops[0], mid) && absorb_seq_rel(
                mid,
                ops.subrange(1, ops.len() as int),
                b,
            );
        T::absorb_congruent(a1, a2, ops[0], mid);
        assert(T::absorb_rel(a2, ops[0], mid));
    }
}

/// Replay also reads its end state up to `t_like`.
pub proof fn lemma_seq_rel_congruent_end<T: Absorb<O>, O>(a: T, ops: Seq<O>, b1: T, b2: T)
    requires
        T::t_like(b1, b2),
        absorb_seq_rel(a, ops, b1),
    ensures
        absorb_seq_rel(a, ops, b2),
    decreases ops.len(),
{
    if ops.len() == 0 {
        T::t_like_trans(a, b1, b2);
    } else {
        let mid = choose|mid: T|
            T::t_wf(mid) && #[trigger] T::absorb_rel(a, ops[0], mid) && absorb_seq_rel(
                mid,
                ops.subrange(1, ops.len() as int),
                b1,
            );
        lemma_seq_rel_congruent_end::<T, O>(mid, ops.subrange(1, ops.len() as int), b1, b2);
    }
}

/// Extending a replay by one absorbed operation.
pub proof fn lemma_seq_rel_snoc<T: Absorb<O>, O>(a: T, ops: Seq<O>, b: T, op: O, c: T)
    requires
        T::t_wf(a),
        T::t_wf(b),
        T::t_wf(c),
        absorb_seq_rel(a, ops, b),
        T::absorb_rel(b, op, c),
    ensures
        absorb_seq_rel(a, ops.push(op), c),
    decreases ops.len(),
{
    if ops.len() == 0 {
        T::t_like_sym(a, b);
        T::absorb_congruent(b, a, op, c);
        assert(ops.push(op)[0] == op);
        let rest = ops.push(op).subrange(1, ops.push(op).len() as int);
        assert(rest.len() == 0);
        T::t_like_refl(c);
        assert(absorb_seq_rel(c, rest, c));
        assert(T::absorb_rel(a, ops.push(op)[0], c));
        assert(absorb_seq_rel(a, ops.push(op), c));
    } else {
        let mid = choose|mid: T|
            T::t_wf(mid) && #[trigger] T::absorb_rel(a, ops[0], mid) && absorb_seq_rel(
                mid,
                ops.subrange(1, ops.len() as int),
                b,
            );
        lemma_seq_rel_snoc::<T, O>(mid, ops.subrange(1, ops.len() as int), b, op, c);
        assert(ops.push(op)[0] == ops[0]);
        assert(ops.push(op).subrange(1, ops.push(op).len() as int) =~= ops.subrange(
            1,
            ops.len() as int,
        ).push(op));
    }
}

/// Chaining two replays.
pub proof fn lemma_seq_rel_concat<T: Absorb<O>, O>(a: T, s1: Seq<O>, b: T, s2: Seq<O>, c: T)
    requires
        T::t_wf(a),
        T::t_wf(b),
        absorb_seq_rel(a, s1, b),
        absorb_seq_rel(b, s2, c),
    ensures
        absorb_seq_rel(a, s1 + s2, c),
    decreases s1.len(),
{
    if s1.len() == 0 {
        T::t_like_sym(a, b);
        lemma_seq_rel_congruent::<T, O>(b, a, s2, c);
        assert(s1 + s2 =~= s2);
    } else {
        let mid = choose|mid: T|
            T::t_wf(mid) && #[trigger] T::absorb_rel(a, s1[0], mid) && absorb_seq_rel(
                mid,
                s1.subrange(1, s1.len() as int),
                b,
            );
        lemma_seq_rel_concat::<T, O>(mid, s1.subrange(1, s1.len() as int), b, s2, c);
        assert((s1 + s2)[0] == s1[0]);
        assert((s1 + s2).subrange(1, (s1 + s2).len() as int) =~= s1.subrange(
            1,
            s1.len() as int,
        ) + s2);
    }
}

/// Replay is a function of the starting state up to `t_like`: two replays
/// of the same operations from states that agree end in states that agree.
pub proof fn lemma_seq_rel_deterministic<T: Absorb<O>, O>(a1: T, a2: T, ops: Seq<O>, b1: T, b2: T)
    requires
        T::t_wf(a1),
        T::t_wf(a2),
        T::t_wf(b1),
        T::t_wf(b2),
        T::t_like(a1, a2),
        absorb_seq_rel(a1, ops, b1),
        absorb_seq_rel(a2, ops, b2),
    ensures
        T::t_like(b1, b2),
    decreases ops.len(),
{
    if ops.len() == 0 {
        T::t_like_sym(a1, b1);
        T::t_like_trans(b1, a1, a2);
        T::t_like_trans(b1, a2, b2);
    } else {
        let m1 = choose|mid: T|
            T::t_wf(mid) && #[trigger] T::absorb_rel(a1, ops[0], mid) && absorb_seq_rel(
                mid,
                ops.subrange(1, ops.len() as int),
                b1,
            );
        let m2 = choose|mid: T|
            T::t_wf(mid) && #[trigger] T::absorb_rel(a2, ops[0], mid) && absorb_seq_rel(
                mid,
                ops.subrange(1, ops.len() as int),
                b2,
            );
        assert(T::t_like(m1, m2)) by {
            T::absorb_deterministic(a1, m1, a2, m2, ops[0]);
        }
        lemma_seq_rel_deterministic::<T, O>(m1, m2, ops.subrange(1, ops.len() as int), b1, b2);
    }
}

} // verus!

verus! {

/// The writer's half of the snapshot pair. It owns the two buffers, the
/// four-bit state word, and the buffer of operations still owed to one of
/// the two copies. The ghost fields record the full operation history so
/// that contracts can say which prefix of it a snapshot reflects.
pub struct Writer<T, O> {
    /// First buffer.
    pub value_1: T,
    /// Second buffer.
    pub value_2: T,
    /// State word, bits from low to high: a reader exists; the first buffer
    /// is being read; the second buffer is being read; reads target the
    /// second buffer.
    pub state: u8,
    /// Which buffer the writer writes: false the first, true the second.
    /// Always the one reads do not target.
    pub write_ptr: bool,
    /// Operations applied to one buffer and still owed to the other.
    pub op_buffer: Vec<O>,
    /// Whether a write guard is outstanding.
    pub write_locked: bool,
    /// The value the writer started from.
    pub hist_init: Ghost<T>,
    /// Every operation ever applied, in order.
    pub hist_ops: Ghost<Seq<O>>,
    /// Whether the write target already holds the buffered operations.
    pub synced: Ghost<bool>,
}

/// Capability for writing through a locked writer. Obtained from
/// `Writer::try_lock`; give it back with `swap`, which publishes.
pub struct WriteGuard {
    no_forge: (),
}

/// The reader's token. At most one exists per writer, tracked by the state
/// word's lowest bit.
pub struct Reader {
    no_forge: (),
}

/// One whole snapshot, taken while its buffer was marked as being read.
pub struct ReadGuard<T> {
    /// The snapshot.
    pub value: T,
    /// Which buffer it was read from: false the first, true the second.
    pub from_second: bool,
}

impl<T: Absorb<O>, O> Writer<T, O> {
    /// A reader token exists.
    pub open spec fn has_reader(self) -> bool {
        self.state & 0x1 != 0
    }

    /// The first buffer is being read.
    pub open spec fn reading_one(self) -> bool {
        self.state & 0x2 != 0
    }

    /// The second buffer is being read.
    pub open spec fn reading_two(self) -> bool {
        self.state & 0x4 != 0
    }

    /// Reads target the second buffer.
    pub open spec fn read_two(self) -> bool {
        self.state & 0x8 != 0
    }

    /// The snapshot a read would take now.
    pub open spec fn published(self) -> T {
        if self.read_two() {
            self.value_2
        } else {
            self.value_1
        }
    }

    /// The buffer the writer writes.
    pub open spec fn write_value(self) -> T {
        if self.write_ptr {
            self.value_2
        } else {
            self.value_1
        }
    }

    /// Operations not yet replayed into both buffers.
    pub open spec fn pending(self) -> Seq<O> {
        self.op_buffer@
    }

    /// How many of the recorded operations the published snapshot reflects.
    pub open spec fn published_count(self) -> int {
        if self.synced@ {
            self.hist_ops@.len() - self.op_buffer@.len()
        } else {
            self.hist_ops@.len() as int
        }
    }

    /// Everything but the state word and the lock mark agrees.
    pub open spec fn same_buffers(self, other: Writer<T, O>) -> bool {
        &&& self.value_1 == other.value_1
        &&& self.value_2 == other.value_2
        &&& self.write_ptr == other.write_ptr
        &&& self.op_buffer@ == other.op_buffer@
        &&& self.hist_init@ == other.hist_init@
        &&& self.hist_ops@ == other.hist_ops@
        &&& self.synced@ == other.synced@
    }

    /// The writer's invariant.
    pub open spec fn inv(self) -> bool {
        &&& self.state < 16
        &&& !(self.reading_one() && self.reading_two())
        &&& self.write_ptr == !self.read_two()
        &&& !self.has_reader() ==> !self.reading_one() && !self.reading_two()
        &&& T::t_wf(self.value_1)
        &&& T::t_wf(self.value_2)
        &&& T::t_wf(self.hist_init@)
        &&& self.op_buffer@.len() <= self.hist_ops@.len()
        &&& self.op_buffer@ == self.hist_ops@.skip(
            self.hist_ops@.len() - self.op_buffer@.len(),
        )
        &&& self.synced@ ==> absorb_seq_rel(
            self.hist_init@,
            self.hist_ops@.take(self.hist_ops@.len() - self.op_buffer@.len()),
            self.published(),
        )
        &&& self.synced@ ==> absorb_seq_rel(self.published(), self.op_buffer@, self.write_value())
        &&& !self.synced@ ==> absorb_seq_rel(
            self.hist_init@,
            self.hist_ops@.take(self.hist_ops@.len() - self.op_buffer@.len()),
            self.write_value(),
        )
        &&& !self.synced@ ==> absorb_seq_rel(self.write_value(), self.op_buffer@, self.published())
        &&& !self.synced@ ==> self.op_buffer@.len() > 0 && !self.write_locked
        &&& self.write_locked ==> self.synced@
        &&& (!self.write_locked && self.synced@) ==> self.op_buffer@.len() == 0
    }

    /// Start a snapshot pair from one value.
    pub fn new(value: T) -> (r: Writer<T, O>)
        requires
            T::t_wf(value),
        ensures
            r.inv(),
            !r.has_reader(),
            !r.reading_one() && !r.reading_two(),
            !r.read_two(),
            r.write_ptr,
            !r.write_locked,
            r.pending().len() == 0,
            r.hist_init@ == value,
            r.hist_ops@ =~= Seq::<O>::empty(),
            T::t_like(value, r.published()),
            T::t_like(value, r.write_value()),
    {
        let copy = value.duplicate();
        let r = Writer {
            value_1: value,
            value_2: copy,
            state: 0,
            write_ptr: true,
            op_buffer: Vec::new(),
            write_locked: false,
            hist_init: Ghost(value),
            hist_ops: Ghost(Seq::empty()),
            synced: Ghost(true),
        };
        proof {
            let s0: u8 = r.state;
            assert(s0 & 0x1u8 == 0 && s0 & 0x2u8 == 0 && s0 & 0x4u8 == 0 && s0 & 0x8u8 == 0)
                by (bit_vector)
                requires
                    s0 == 0u8,
            ;
            T::t_like_refl(value);
            assert(r.hist_ops@.take(0) =~= Seq::<O>::empty());
            assert(r.op_buffer@ =~= r.hist_ops@.skip(0));
            assert(absorb_seq_rel(r.hist_init@, r.hist_ops@.take(0), r.published()));
            assert(absorb_seq_rel(r.published(), r.op_buffer@, r.write_value()));
        }
        r
    }

    /// The value the writer would write next; it may be newer than what a
    /// reader currently sees.
    pub fn read(&self) -> (r: &T)
        ensures
            *r == self.write_value(),
    {
        if self.write_ptr {
            &self.value_2
        } else {
            &self.value_1
        }
    }

    /// Whether no reader exists.
    pub fn is_unique(&self) -> (r: bool)
        ensures
            r == !self.has_reader(),
    {
        self.state & 0x1 == 0
    }

    /// Mint the reader token, if none exists.
    pub fn build_reader(&mut self) -> (r: Option<Reader>)
        requires
            old(self).inv(),
        ensures
            final(self).inv(),
            old(self).has_reader() ==> r is None && *final(self) == *old(self),
            !old(self).has_reader() ==> r is Some && final(self).has_reader(),
            final(self).same_buffers(*old(self)),
            final(self).write_locked == old(self).write_locked,
            final(self).read_two() == old(self).read_two(),
            final(self).reading_one() == old(self).reading_one(),
            final(self).reading_two() == old(self).reading_two(),
            final(self).published() == old(self).published(),
            final(self).write_value() == old(self).write_value(),
    {
        if self.state & 0x1 != 0 {
            return None;
        }
        let s = self.state;
        self.state = s | 0x1;
        proof {
            assert((s | 0x1u8) < 16 && (s | 0x1u8) & 0x1u8 != 0 && (s | 0x1u8) & 0x2u8 == s
                & 0x2u8 && (s | 0x1u8) & 0x4u8 == s & 0x4u8 && (s | 0x1u8) & 0x8u8 == s
                & 0x8u8) by (bit_vector)
                requires
                    s < 16u8,
            ;
        }
        Some(Reader { no_forge: () })
    }
}

impl Reader {
    /// Take a snapshot: mark the read target as being read and copy it out.
    /// At most one guard may be outstanding.
    ///
    /// The copy is this sequential model's rendition of read access; the
    /// concurrent structure it models reads the marked buffer in place.
    pub fn lock<T: Absorb<O>, O>(&mut self, w: &mut Writer<T, O>) -> (r: ReadGuard<T>)
        requires
            old(w).inv(),
            old(w).has_reader(),
            !old(w).reading_one(),
            !old(w).reading_two(),
        ensures
            final(w).inv(),
            final(w).same_buffers(*old(w)),
            final(w).write_locked == old(w).write_locked,
            final(w).has_reader(),
            final(w).read_two() == old(w).read_two(),
            r.from_second == old(w).read_two(),
            r.from_second ==> final(w).reading_two() && !final(w).reading_one(),
            !r.from_second ==> final(w).reading_one() && !final(w).reading_two(),
            final(w).published() == old(w).published(),
            final(w).write_value() == old(w).write_value(),
            final(w).published_count() == old(w).published_count(),
            T::t_wf(r.value),
            T::t_like(r.value, old(w).published()),
    {
        let s = w.state;
        let from_second = s & 0x8 != 0;
        if from_second {
            w.state = s | 0x4;
            proof {
                assert((s | 0x4u8) < 16 && (s | 0x4u8) & 0x4u8 != 0 && (s | 0x4u8) & 0x2u8 == s
                    & 0x2u8 && (s | 0x4u8) & 0x1u8 == s & 0x1u8 && (s | 0x4u8) & 0x8u8 == s
                    & 0x8u8) by (bit_vector)
                    requires
                        s < 16u8,
                ;
            }
            let value = w.value_2.duplicate();
            proof {
                T::t_like_sym(w.value_2, value);
            }
            ReadGuard { value, from_second }
        } else {
            w.state = s | 0x2;
            proof {
                assert((s | 0x2u8) < 16 && (s | 0x2u8) & 0x2u8 != 0 && (s | 0x2u8) & 0x4u8 == s
                    & 0x4u8 && (s | 0x2u8) & 0x1u8 == s & 0x1u8 && (s | 0x2u8) & 0x8u8 == s
                    & 0x8u8) by (bit_vector)
                    requires
                        s < 16u8,
                ;
            }
            let value = w.value_1.duplicate();
            proof {
                T::t_like_sym(w.value_1, value);
            }
            ReadGuard { value, from_second }
        }
    }

    /// Give the reader token back, so a new reader can be minted. Any read
    /// guard must have been released first.
    pub fn release<T: Absorb<O>, O>(self, w: &mut Writer<T, O>)
        requires
            old(w).inv(),
            old(w).has_reader(),
            !old(w).reading_one(),
            !old(w).reading_two(),
        ensures
            final(w).inv(),
            final(w).same_buffers(*old(w)),
            final(w).write_locked == old(w).write_locked,
            !final(w).has_reader(),
            !final(w).reading_one() && !final(w).reading_two(),
            final(w).read_two() == old(w).read_two(),
            final(w).published() == old(w).published(),
            final(w).write_value() == old(w).write_value(),
    {
        let s = w.state;
        w.state = s & 0xE;
        proof {
            assert((s & 0xEu8) < 16 && (s & 0xEu8) & 0x1u8 == 0 && (s & 0xEu8) & 0x2u8 == s
                & 0x2u8 && (s & 0xEu8) & 0x4u8 == s & 0x4u8 && (s & 0xEu8) & 0x8u8 == s
                & 0x8u8) by (bit_vector)
                requires
                    s < 16u8,
            ;
        }
    }
}

impl<T> ReadGuard<T> {
    /// Release the read mark on the buffer this snapshot came from.
    pub fn release<O>(self, w: &mut Writer<T, O>) where T: Absorb<O>
        requires
            old(w).inv(),
            self.from_second ==> old(w).reading_two(),
            !self.from_second ==> old(w).reading_one(),
        ensures
            final(w).inv(),
            final(w).same_buffers(*old(w)),
            final(w).write_locked == old(w).write_locked,
            final(w).has_reader() == old(w).has_reader(),
            !final(w).reading_one() && !final(w).reading_two(),
            final(w).read_two() == old(w).read_two(),
            final(w).published() == old(w).published(),
            final(w).write_value() == old(w).write_value(),
    {
        let s = w.state;
        w.state = s & 0x9;
        proof {
            assert((s & 0x9u8) < 16 && (s & 0x9u8) & 0x2u8 == 0 && (s & 0x9u8) & 0x4u8 == 0 && (
            s & 0x9u8) & 0x1u8 == s & 0x1u8 && (s & 0x9u8) & 0x8u8 == s & 0x8u8)
                by (bit_vector)
                requires
                    s < 16u8,
            ;
        }
    }
}

} // verus!

verus! {

impl<T: Absorb<O>, O> Writer<T, O> {
    /// Whether a write lock can be taken: no guard is outstanding and no
    /// read marks the write target.
    pub open spec fn can_write(self) -> bool {
        &&& !self.write_locked
        &&& self.write_ptr ==> !self.reading_two()
        &&& !self.write_ptr ==> !self.reading_one()
    }

    /// Take the write lock without blocking. On success the buffered
    /// operations have been replayed into the write target, which then
    /// agrees with the published snapshot plus every pending edit.
    pub fn try_lock(&mut self) -> (r: Option<WriteGuard>)
        requires
            old(self).inv(),
        ensures
            final(self).inv(),
            !old(self).can_write() ==> r is None && *final(self) == *old(self),
            old(self).can_write() ==> r is Some,
            r is Some ==> {
                &&& final(self).write_locked
                &&& final(self).synced@
                &&& final(self).pending().len() == 0
                &&& final(self).published() == old(self).published()
                &&& final(self).has_reader() == old(self).has_reader()
                &&& final(self).read_two() == old(self).read_two()
                &&& final(self).reading_one() == old(self).reading_one()
                &&& final(self).reading_two() == old(self).reading_two()
                &&& final(self).hist_init@ == old(self).hist_init@
                &&& final(self).hist_ops@ == old(self).hist_ops@
                &&& absorb_seq_rel(
                    final(self).hist_init@,
                    final(self).hist_ops@,
                    final(self).write_value(),
                )
                &&& T::t_like(final(self).published(), final(self).write_value())
                &&& final(self).published_count() == old(self).published_count()
            },
    {
        if self.write_locked {
            return None;
        }
        let blocked = if self.write_ptr {
            self.state & 0x4 != 0
        } else {
            self.state & 0x2 != 0
        };
        if blocked {
            return None;
        }
        let ghost w0 = *self;
        proof {
            if w0.synced@ {
                // unlocked and synced: nothing is pending
                assert(w0.op_buffer@.len() == 0);
                assert(T::t_like(w0.published(), w0.write_value()));
                T::t_like_sym(w0.published(), w0.write_value());
                assert(absorb_seq_rel(w0.write_value(), w0.op_buffer@, w0.published()));
                assert(w0.hist_ops@.take(w0.hist_ops@.len() as int) =~= w0.hist_ops@);
                lemma_seq_rel_congruent_end::<T, O>(
                    w0.hist_init@,
                    w0.hist_ops@,
                    w0.published(),
                    w0.write_value(),
                );
            }
        }
        while self.op_buffer.len() > 0
            invariant
                w0.inv(),
                self.state == w0.state,
                self.write_ptr == w0.write_ptr,
                self.write_locked == w0.write_locked,
                self.hist_init@ == w0.hist_init@,
                self.hist_ops@ == w0.hist_ops@,
                self.published() == w0.published(),
                T::t_wf(self.value_1),
                T::t_wf(self.value_2),
                absorb_seq_rel(self.write_value(), self.op_buffer@, self.published()),
                absorb_seq_rel(
                    self.hist_init@,
                    self.hist_ops@.take(self.hist_ops@.len() - self.op_buffer@.len()),
                    self.write_value(),
                ),
                self.op_buffer@.len() <= self.hist_ops@.len(),
                self.op_buffer@ == self.hist_ops@.skip(
                    self.hist_ops@.len() - self.op_buffer@.len(),
                ),
            decreases self.op_buffer@.len(),
        {
            let ghost buf0 = self.op_buffer@;
            let ghost wv0 = self.write_value();
            let ghost pub0 = self.published();
            let op = self.op_buffer.remove(0);
            let ghost opg = op;
            if self.write_ptr {
                self.value_2.absorb(op);
            } else {
                self.value_1.absorb(op);
            }
            proof {
                let wv1 = self.write_value();
                let rest = buf0.subrange(1, buf0.len() as int);
                assert(self.op_buffer@ =~= rest);
                assert(self.published() == pub0);
                assert(absorb_seq_rel(wv0, buf0, pub0));
                let mid = choose|mid: T|
                    T::t_wf(mid) && #[trigger] T::absorb_rel(wv0, buf0[0], mid)
                        && absorb_seq_rel(mid, buf0.subrange(1, buf0.len() as int), pub0);
                assert(T::t_wf(mid) && T::absorb_rel(wv0, buf0[0], mid) && absorb_seq_rel(
                    mid,
                    rest,
                    pub0,
                ));
                T::t_like_refl(wv0);
                T::absorb_deterministic(wv0, wv1, wv0, mid, opg);
                T::t_like_sym(wv1, mid);
                lemma_seq_rel_congruent::<T, O>(mid, wv1, rest, pub0);
                // one more history entry is reflected in the write target
                let k = self.hist_ops@.len() - buf0.len();
                assert(buf0 == self.hist_ops@.skip(k));
                assert(opg == buf0[0]);
                assert(buf0[0] == self.hist_ops@.skip(k)[0]);
                assert(self.hist_ops@.skip(k)[0] == self.hist_ops@[k]);
                assert forall|x: int| 0 <= x < rest.len() implies rest[x] == self.hist_ops@.skip(
                    k + 1,
                )[x] by {
                    assert(rest[x] == buf0[x + 1]);
                    assert(buf0[x + 1] == self.hist_ops@.skip(k)[x + 1]);
                }
                lemma_seq_rel_snoc::<T, O>(
                    self.hist_init@,
                    self.hist_ops@.take(k),
                    wv0,
                    opg,
                    wv1,
                );
                assert(self.hist_ops@.take(k).push(opg) =~= self.hist_ops@.take(k + 1));
                assert(self.op_buffer@ =~= self.hist_ops@.skip(
                    self.hist_ops@.len() - self.op_buffer@.len(),
                ));
            }
        }
        self.write_locked = true;
        proof {
            self.synced = Ghost(true);
            assert(self.hist_ops@.take(self.hist_ops@.len() as int) =~= self.hist_ops@);
            T::t_like_sym(self.write_value(), self.published());
            lemma_seq_rel_congruent_end::<T, O>(
                self.hist_init@,
                self.hist_ops@,
                self.write_value(),
                self.published(),
            );
            assert(self.op_buffer@ =~= self.hist_ops@.skip(self.hist_ops@.len() as int));
        }
        Some(WriteGuard { no_forge: () })
    }
}

impl WriteGuard {
    /// The value being written to.
    pub fn read<'a, T: Absorb<O>, O>(&self, w: &'a Writer<T, O>) -> (r: &'a T)
        ensures
            *r == w.write_value(),
    {
        w.read()
    }

    /// Apply one operation through the write lock. With a reader present
    /// the operation is buffered for the other copy; without one, both
    /// copies absorb it at once.
    pub fn apply_op<T: Absorb<O>, O: DuplicateOp>(&mut self, w: &mut Writer<T, O>, operation: O)
        requires
            old(w).inv(),
            old(w).write_locked,
        ensures
            final(w).inv(),
            final(w).write_locked,
            final(w).synced@,
            final(w).has_reader() == old(w).has_reader(),
            final(w).read_two() == old(w).read_two(),
            final(w).reading_one() == old(w).reading_one(),
            final(w).reading_two() == old(w).reading_two(),
            final(w).hist_init@ == old(w).hist_init@,
            final(w).hist_ops@ == old(w).hist_ops@.push(operation),
            T::absorb_rel(old(w).write_value(), operation, final(w).write_value()),
            old(w).has_reader() || old(w).pending().len() > 0 ==> final(w).pending() == old(
                w,
            ).pending().push(operation) && final(w).published() == old(w).published(),
            !(old(w).has_reader() || old(w).pending().len() > 0) ==> final(w).pending().len()
                == 0 && T::absorb_rel(old(w).published(), operation, final(w).published()),
            final(w).published_count() >= old(w).published_count(),
    {
        let ghost w0 = *w;
        let buffered = w.state & 0x1 != 0 || w.op_buffer.len() > 0;
        if buffered {
            let copy = operation.duplicate();
            w.op_buffer.push(copy);
            if w.write_ptr {
                w.value_2.absorb(operation);
            } else {
                w.value_1.absorb(operation);
            }
            proof {
                w.hist_ops = Ghost(w.hist_ops@.push(operation));
                let k = w0.hist_ops@.len() - w0.op_buffer@.len();
                assert(w.op_buffer@ =~= w.hist_ops@.skip(
                    w.hist_ops@.len() - w.op_buffer@.len(),
                ));
                assert(w.hist_ops@.take(w.hist_ops@.len() - w.op_buffer@.len())
                    =~= w0.hist_ops@.take(k));
                lemma_seq_rel_snoc::<T, O>(
                    w0.published(),
                    w0.op_buffer@,
                    w0.write_value(),
                    operation,
                    w.write_value(),
                );
            }
        } else {
            let copy = operation.duplicate();
            if w.write_ptr {
                w.value_2.absorb(operation);
                w.value_1.absorb(copy);
            } else {
                w.value_1.absorb(operation);
                w.value_2.absorb(copy);
            }
            proof {
                w.hist_ops = Ghost(w.hist_ops@.push(operation));
                assert(w0.op_buffer@.len() == 0);
                assert(T::t_like(w0.published(), w0.write_value()));
                T::absorb_deterministic(
                    w0.published(),
                    w.published(),
                    w0.write_value(),
                    w.write_value(),
                    operation,
                );
                let k = w0.hist_ops@.len() as int;
                lemma_seq_rel_snoc::<T, O>(
                    w.hist_init@,
                    w0.hist_ops@.take(k),
                    w0.published(),
                    operation,
                    w.published(),
                );
                assert(w0.hist_ops@.take(k).push(operation) =~= w.hist_ops@.take(
                    w.hist_ops@.len() as int,
                ));
                assert(w.hist_ops@.take(w.hist_ops@.len() - w.op_buffer@.len())
                    =~= w.hist_ops@.take(w.hist_ops@.len() as int));
                assert(w.op_buffer@ =~= w.hist_ops@.skip(w.hist_ops@.len() as int));
                assert(absorb_seq_rel(w.published(), w.op_buffer@, w.write_value()));
            }
        }
    }

    /// Publish: make everything applied under this lock visible to the next
    /// read, and give the lock back. With nothing applied since the last
    /// publish, the snapshot stays as it is.
    pub fn swap<T: Absorb<O>, O>(self, w: &mut Writer<T, O>)
        requires
            old(w).inv(),
            old(w).write_locked,
        ensures
            final(w).inv(),
            !final(w).write_locked,
            final(w).has_reader() == old(w).has_reader(),
            final(w).reading_one() == old(w).reading_one(),
            final(w).reading_two() == old(w).reading_two(),
            final(w).hist_init@ == old(w).hist_init@,
            final(w).hist_ops@ == old(w).hist_ops@,
            final(w).pending() == old(w).pending(),
            old(w).pending().len() == 0 ==> final(w).published() == old(w).published(),
            old(w).pending().len() > 0 ==> final(w).published() == old(w).write_value(),
            old(w).pending().len() > 0 ==> (final(w).read_two() == old(w).write_ptr && final(w).write_ptr == !old(w).write_ptr),
            old(w).pending().len() == 0 ==> (final(w).read_two() == old(w).read_two() && final(w).write_ptr == old(w).write_ptr),
            final(w).published_count() >= old(w).published_count(),
            absorb_seq_rel(final(w).hist_init@, final(w).hist_ops@, final(w).published()),
    {
        let ghost w0 = *w;
        if w.op_buffer.len() == 0 {
            w.write_locked = false;
            proof {
                assert(w.hist_ops@.take(w.hist_ops@.len() as int) =~= w.hist_ops@);
            }
            return;
        }
        let s = w.state;
        if w.write_ptr {
            // reads move to the second buffer; the first becomes the target
            w.state = s | 0x8;
            proof {
                assert((s | 0x8u8) < 16 && (s | 0x8u8) & 0x8u8 != 0 && (s | 0x8u8) & 0x1u8 == s
                    & 0x1u8 && (s | 0x8u8) & 0x2u8 == s & 0x2u8 && (s | 0x8u8) & 0x4u8 == s
                    & 0x4u8) by (bit_vector)
                    requires
                        s < 16u8,
                ;
            }
            w.write_ptr = false;
        } else {
            w.state = s & 0x7;
            proof {
                assert((s & 0x7u8) < 16 && (s & 0x7u8) & 0x8u8 == 0 && (s & 0x7u8) & 0x1u8 == s
                    & 0x1u8 && (s & 0x7u8) & 0x2u8 == s & 0x2u8 && (s & 0x7u8) & 0x4u8 == s
                    & 0x4u8) by (bit_vector)
                    requires
                        s < 16u8,
                ;
            }
            w.write_ptr = true;
        }
        w.write_locked = false;
        proof {
            w.synced = Ghost(false);
            assert(w.published() == w0.write_value());
            assert(w.write_value() == w0.published());
            let k = w0.hist_ops@.len() - w0.op_buffer@.len();
            assert(absorb_seq_rel(w.hist_init@, w.hist_ops@.take(k), w.write_value()));
            assert(absorb_seq_rel(w.write_value(), w.op_buffer@, w.published()));
            // the published snapshot now reflects the whole history
            lemma_seq_rel_concat::<T, O>(
                w.hist_init@,
                w.hist_ops@.take(k),
                w.write_value(),
                w.op_buffer@,
                w.published(),
            );
            assert(w.hist_ops@.take(k) + w.op_buffer@ =~= w.hist_ops@);
        }
    }
}

/// What a reader can ever see is a full snapshot: the published value is
/// the writer's starting value with a prefix of the recorded operations
/// absorbed, all of them or all but the ones still pending.
pub proof fn lemma_snapshot_is_prefix_replay<T: Absorb<O>, O>(w: Writer<T, O>)
    requires
        w.inv(),
    ensures
        0 <= w.published_count() <= w.hist_ops@.len(),
        absorb_seq_rel(w.hist_init@, w.hist_ops@.take(w.published_count()), w.published()),
{
    if !w.synced@ {
        let k = w.hist_ops@.len() - w.op_buffer@.len();
        lemma_seq_rel_concat::<T, O>(
            w.hist_init@,
            w.hist_ops@.take(k),
            w.write_value(),
            w.op_buffer@,
            w.published(),
        );
        assert(w.hist_ops@.take(k) + w.op_buffer@ =~= w.hist_ops@);
        assert(w.hist_ops@.take(w.published_count()) =~= w.hist_ops@);
    }
}

} // verus!

verus! {

/// The smallest useful absorber: an additive counter edit. The saturation
/// keeps absorbing total at the ends of the range.
#[derive(Debug, Clone, Copy, PartialEq, Eq, Structural)]
pub struct CounterAddOp(pub i32);

impl DuplicateOp for CounterAddOp {
    fn duplicate(&self) -> (r: CounterAddOp) {
        *self
    }
}

/// The saturating sum the counter absorber produces.
pub open spec fn counter_add(pre: int, delta: int) -> int {
    if pre + delta > i32::MAX {
        i32::MAX as int
    } else if pre + delta < i32::MIN {
        i32::MIN as int
    } else {
        pre + delta
    }
}

impl Absorb<CounterAddOp> for i32 {
    open spec fn t_wf(a: i32) -> bool {
        true
    }

    open spec fn t_like(a: i32, b: i32) -> bool {
        a == b
    }

    open spec fn absorb_rel(pre: i32, op: CounterAddOp, post: i32) -> bool {
        post == counter_add(pre as int, op.0 as int)
    }

    proof fn t_like_refl(a: i32) {
    }

    proof fn t_like_sym(a: i32, b: i32) {
    }

    proof fn t_like_trans(a: i32, b: i32, c: i32) {
    }

    proof fn absorb_deterministic(pre1: i32, post1: i32, pre2: i32, post2: i32, op: CounterAddOp) {
    }

    proof fn absorb_congruent(pre1: i32, pre2: i32, op: CounterAddOp, post: i32) {
    }

    fn duplicate(&self) -> (r: i32) {
        *self
    }

    fn absorb(&mut self, operation: CounterAddOp) {
        let wide: i64 = (*self as i64) + (operation.0 as i64);
        if wide > i32::MAX as i64 {
            *self = i32::MAX;
        } else if wide < i32::MIN as i64 {
            *self = i32::MIN;
        } else {
            *self = wide as i32;
        }
    }
}

impl Default for Writer<i32, CounterAddOp> {
    /// A counter snapshot starting from zero.
    fn default() -> (r: Writer<i32, CounterAddOp>)
        ensures
            r.inv(),
            !r.has_reader(),
            !r.write_locked,
            r.pending().len() == 0,
            r.hist_init@ == 0i32,
            r.hist_ops@ =~= Seq::<CounterAddOp>::empty(),
            r.published() == 0i32,
            r.write_value() == 0i32,
    {
        Writer::new(0)
    }
}

} // verus!

verus! {

/// Replay determinism at the snapshot level: two writers that started from
/// agreeing values and have recorded the same operations publish agreeing
/// snapshots, once each publication reflects its whole history (as it does
/// right after a write guard is given back).
pub proof fn lemma_published_replay_deterministic<T: Absorb<O>, O>(
    w1: Writer<T, O>,
    w2: Writer<T, O>,
)
    requires
        w1.inv(),
        w2.inv(),
        T::t_like(w1.hist_init@, w2.hist_init@),
        w1.hist_ops@ == w2.hist_ops@,
        absorb_seq_rel(w1.hist_init@, w1.hist_ops@, w1.published()),
        absorb_seq_rel(w2.hist_init@, w2.hist_ops@, w2.published()),
    ensures
        T::t_like(w1.published(), w2.published()),
{
    lemma_seq_rel_deterministic::<T, O>(
        w1.hist_init@,
        w2.hist_init@,
        w1.hist_ops@,
        w1.published(),
        w2.published(),
    );
}

} // verus!
