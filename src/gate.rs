//! Concurrency gate: a counting gate of fixed capacity with a first-come,
//! first-served queue of waiting callers. Callers are named by ids that the
//! runtime around it hands out; this module decides, the runtime waits.
use vstd::prelude::*;

verus! {

/// Abstract state of a gate.
pub struct GateState {
    pub capacity: nat,
    pub held: nat,
    pub waiting: Seq<u64>,
    pub closed: bool,
}

/// One operation on a gate.
pub enum GateOp {
    Acquire(u64),
    Release,
    Cancel(u64),
    Close,
}

/// What `acquire` tells its caller.
#[derive(PartialEq, Eq, Structural, Clone, Copy, Debug)]
pub enum Admission {
    /// A permit is held now.
    Granted,
    /// The caller waits in line; a later `release` names it when its turn comes.
    Queued,
    /// No more permits are issued.
    Closed,
}

impl GateState {
    /// Capacity at least one, never more permits out than the capacity, and
    /// nobody waits while a permit is free or after closing.
    pub open spec fn wf(self) -> bool {
        &&& self.capacity >= 1
        &&& self.held <= self.capacity
        &&& self.waiting.len() > 0 ==> self.held == self.capacity && !self.closed
    }
}

/// `s` with every occurrence of `id` taken out, the rest in order.
pub open spec fn without(s: Seq<u64>, id: u64) -> Seq<u64>
    decreases s.len(),
{
    if s.len() == 0 {
        s
    } else if s.last() == id {
        without(s.drop_last(), id)
    } else {
        without(s.drop_last(), id).push(s.last())
    }
}

/// The answer to an `Acquire` in state `s`.
pub open spec fn admission_of(s: GateState) -> Admission {
    if s.closed {
        Admission::Closed
    } else if s.held < s.capacity {
        Admission::Granted
    } else {
        Admission::Queued
    }
}

/// The state after `op` in state `s`. A `Release` with a waiter in line hands
/// the permit straight to the first waiter; a `Release` with no permit out
/// changes nothing.
pub open spec fn step(s: GateState, op: GateOp) -> GateState {
    match op {
        GateOp::Acquire(id) => match admission_of(s) {
            Admission::Closed => s,
            Admission::Granted => GateState { held: s.held + 1, ..s },
            Admission::Queued => GateState { waiting: s.waiting.push(id), ..s },
        },
        GateOp::Release => if s.held == 0 {
            s
        } else if s.waiting.len() > 0 {
            GateState { waiting: s.waiting.drop_first(), ..s }
        } else {
            GateState { held: (s.held - 1) as nat, ..s }
        },
        GateOp::Cancel(id) => GateState { waiting: without(s.waiting, id), ..s },
        GateOp::Close => GateState { waiting: Seq::empty(), closed: true, ..s },
    }
}

/// The state after the operations `ops`, in order, from `s`.
pub open spec fn run(s: GateState, ops: Seq<GateOp>) -> GateState
    decreases ops.len(),
{
    if ops.len() == 0 {
        s
    } else {
        step(run(s, ops.drop_last()), ops.last())
    }
}

proof fn lemma_without_len(s: Seq<u64>, id: u64)
    ensures
        without(s, id).len() <= s.len(),
    decreases s.len(),
{
    if s.len() > 0 {
        lemma_without_len(s.drop_last(), id);
    }
}

/// Every operation keeps a well-formed gate well-formed.
pub proof fn lemma_step_wf(s: GateState, op: GateOp)
    requires
        s.wf(),
    ensures
        step(s, op).wf(),
        step(s, op).capacity == s.capacity,
{
    if let GateOp::Cancel(id) = op {
        lemma_without_len(s.waiting, id);
    }
}

/// Whatever operations follow one another from a well-formed gate, the
/// permits out never exceed the capacity.
pub proof fn lemma_never_over_capacity(s: GateState, ops: Seq<GateOp>)
    requires
        s.wf(),
    ensures
        run(s, ops).wf(),
        run(s, ops).held <= s.capacity,
        run(s, ops).capacity == s.capacity,
    decreases ops.len(),
{
    if ops.len() > 0 {
        lemma_never_over_capacity(s, ops.drop_last());
        lemma_step_wf(run(s, ops.drop_last()), ops.last());
    }
}

/// A permit granted and then given back, on whatever path the holder left,
/// leaves the state as it was: a failed request does not use up a slot.
pub proof fn lemma_release_restores(s: GateState, id: u64)
    requires
        s.wf(),
        !s.closed,
        s.held < s.capacity,
    ensures
        admission_of(s) == Admission::Granted,
        step(step(s, GateOp::Acquire(id)), GateOp::Release) == s,
{
    assert(s.waiting.len() == 0);
}

/// A gate with a fixed capacity.
pub struct Gate {
    capacity: u64,
    held: u64,
    waiting: Vec<u64>,
    closed: bool,
}

impl View for Gate {
    type V = GateState;

    closed spec fn view(&self) -> GateState {
        GateState {
            capacity: self.capacity as nat,
            held: self.held as nat,
            waiting: self.waiting@,
            closed: self.closed,
        }
    }
}

impl Gate {
    pub open spec fn wf(&self) -> bool {
        self@.wf()
    }

    /// An open gate with `capacity` permits, none out.
    pub fn new(capacity: u64) -> (r: Gate)
        requires
            capacity >= 1,
        ensures
            r.wf(),
            r@ == (GateState { capacity: capacity as nat, held: 0, waiting: Seq::empty(), closed: false }),
    {
        Gate { capacity, held: 0, waiting: Vec::new(), closed: false }
    }

    pub fn capacity(&self) -> (r: u64)
        ensures
            r == self@.capacity,
    {
        self.capacity
    }

    /// Permits out now.
    pub fn held(&self) -> (r: u64)
        ensures
            r == self@.held,
    {
        self.held
    }

    /// Callers waiting for a permit.
    pub fn waiting_len(&self) -> (r: usize)
        ensures
            r == self@.waiting.len(),
    {
        self.waiting.len()
    }

    /// Asks for a permit on behalf of caller `id`.
    pub fn acquire(&mut self, id: u64) -> (r: Admission)
        requires
            old(self).wf(),
        ensures
            r == admission_of(old(self)@),
            final(self)@ == step(old(self)@, GateOp::Acquire(id)),
            final(self).wf(),
    {
        if self.closed {
            Admission::Closed
        } else if self.held < self.capacity {
            self.held = self.held + 1;
            Admission::Granted
        } else {
            self.waiting.push(id);
            Admission::Queued
        }
    }

    /// Gives back one permit. Returns the waiter that now holds it, if any.
    pub fn release(&mut self) -> (r: Option<u64>)
        requires
            old(self).wf(),
        ensures
            final(self)@ == step(old(self)@, GateOp::Release),
            final(self).wf(),
            r == (if old(self)@.held > 0 && old(self)@.waiting.len() > 0 {
                Some(old(self)@.waiting[0])
            } else {
                None::<u64>
            }),
    {
        if self.held == 0 {
            None
        } else if self.waiting.len() > 0 {
            let next = self.waiting.remove(0);
            assert(old(self)@.waiting.remove(0) =~= old(self)@.waiting.drop_first());
            Some(next)
        } else {
            self.held = self.held - 1;
            None
        }
    }

    /// Takes waiter `id` out of line. Returns whether it was waiting; where it
    /// was not, it may already hold a permit and must release it.
    pub fn cancel(&mut self, id: u64) -> (r: bool)
        requires
            old(self).wf(),
        ensures
            final(self)@ == step(old(self)@, GateOp::Cancel(id)),
            final(self).wf(),
            r == old(self)@.waiting.contains(id),
    {
        let mut kept: Vec<u64> = Vec::new();
        let mut found = false;
        let mut i: usize = 0;
        while i < self.waiting.len()
            invariant
                0 <= i <= self.waiting@.len(),
                self@ == old(self)@,
                kept@ == without(self.waiting@.subrange(0, i as int), id),
                found == self.waiting@.subrange(0, i as int).contains(id),
            decreases self.waiting@.len() - i,
        {
            let t = self.waiting[i];
            let ghost pre = self.waiting@.subrange(0, i as int);
            let ghost post = self.waiting@.subrange(0, i + 1);
            assert(post.drop_last() =~= pre);
            if t == id {
                found = true;
                assert(post[i as int] == id);
            } else {
                kept.push(t);
                assert(post.contains(id) ==> pre.contains(id)) by {
                    if post.contains(id) {
                        let j = choose|j: int| 0 <= j < post.len() && post[j] == id;
                        assert(pre[j] == id);
                    }
                };
            }
            i = i + 1;
        }
        assert(self.waiting@.subrange(0, self.waiting@.len() as int) == self.waiting@);
        proof {
            lemma_without_len(self.waiting@, id);
        }
        self.waiting = kept;
        found
    }

    /// Stops issuing permits. Returns the callers that were waiting, who are
    /// refused. Permits already out stay valid until released.
    pub fn close(&mut self) -> (r: Vec<u64>)
        requires
            old(self).wf(),
        ensures
            final(self)@ == step(old(self)@, GateOp::Close),
            final(self).wf(),
            r@ == old(self)@.waiting,
    {
        self.closed = true;
        let refused = self.waiting.clone();
        self.waiting = Vec::new();
        refused
    }
}

} // verus!
