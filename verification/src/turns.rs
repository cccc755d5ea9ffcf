//! Whose call a busy plugin serves next.
//!
//! Callers that wait for one destination plugin are served in rotation: the
//! caller at the front of the rotation has its oldest waiting call served,
//! and moves behind every other waiting caller if it has more calls waiting.
//! A caller that starts waiting joins at the back, so callers that each wait
//! with one call at a time are served in the order in which they came.

use vstd::prelude::*;

verus! {

/// One serving step: the caller at the front, and the rotation after it,
/// with that caller behind the others if it still has calls waiting.
pub open spec fn serve_step(order: Seq<(u64, usize)>) -> (Option<u64>, Seq<(u64, usize)>) {
    if order.len() == 0 {
        (None, order)
    } else if order[0].1 > 1 {
        (Some(order[0].0), order.drop_first().push((order[0].0, (order[0].1 - 1) as usize)))
    } else {
        (Some(order[0].0), order.drop_first())
    }
}

/// The callers served by `count` serving steps from `order`, with no new
/// arrivals in between.
pub open spec fn served(order: Seq<(u64, usize)>, count: nat) -> Seq<u64>
    decreases count,
{
    if count == 0 {
        Seq::empty()
    } else {
        match serve_step(order).0 {
            Some(caller) => seq![caller] + served(serve_step(order).1, (count - 1) as nat),
            None => Seq::empty(),
        }
    }
}

/// No caller occurs twice in `order`, and each has a call waiting.
pub open spec fn well_formed_rotation(order: Seq<(u64, usize)>) -> bool {
    &&& forall|i: int, j: int|
        0 <= i < order.len() && 0 <= j < order.len() && i != j ==> (#[trigger] order[i]).0
            != (#[trigger] order[j]).0
    &&& forall|i: int| 0 <= i < order.len() ==> (#[trigger] order[i]).1 > 0
}

/// The callers waiting for one destination, in the order in which they are
/// served, each with the number of its calls that wait.
pub struct Turns {
    waiting: Vec<(u64, usize)>,
}

impl View for Turns {
    type V = Seq<(u64, usize)>;

    closed spec fn view(&self) -> Seq<(u64, usize)> {
        self.waiting@
    }
}

impl Turns {
    #[verifier::type_invariant]
    closed spec fn rotation_is_well_formed(self) -> bool {
        well_formed_rotation(self.waiting@)
    }

    /// No caller waits.
    pub fn new() -> (turns: Self)
        ensures
            turns@ == Seq::<(u64, usize)>::empty(),
    {
        Turns { waiting: Vec::new() }
    }

    /// Whether no caller waits.
    pub fn is_idle(&self) -> (idle: bool)
        ensures
            idle == (self@.len() == 0),
    {
        self.waiting.len() == 0
    }

    /// A call of `caller` starts waiting: one more for a caller already in
    /// the rotation, which keeps its place; a new caller joins at the back.
    pub fn arrive(&mut self, caller: u64)
        requires
            forall|i: int| 0 <= i < old(self)@.len() && (#[trigger] old(self)@[i]).0 == caller ==> old(self)@[i].1 < usize::MAX,
        ensures
            (exists|i: int| 0 <= i < old(self)@.len() && (#[trigger] old(self)@[i]).0 == caller) ==> {
                &&& final(self)@.len() == old(self)@.len()
                &&& forall|j: int|
                    0 <= j < old(self)@.len() ==> #[trigger] final(self)@[j] == if old(self)@[j].0
                        == caller {
                        (caller, (old(self)@[j].1 + 1) as usize)
                    } else {
                        old(self)@[j]
                    }
            },
            !(exists|i: int| 0 <= i < old(self)@.len() && (#[trigger] old(self)@[i]).0 == caller) ==> final(self)@ == old(self)@.push((caller, 1)),
    {
        proof {
            use_type_invariant(&*self);
        }
        let mut i: usize = 0;
        while i < self.waiting.len()
            invariant
                i <= self.waiting@.len(),
                self.waiting@ == old(self)@,
                well_formed_rotation(old(self)@),
                forall|j: int|
                    0 <= j < old(self)@.len() && (#[trigger] old(self)@[j]).0 == caller ==> old(
                        self,
                    )@[j].1 < usize::MAX,
                forall|j: int| 0 <= j < i ==> (#[trigger] self.waiting@[j]).0 != caller,
            decreases self.waiting@.len() - i,
        {
            if self.waiting[i].0 == caller {
                let count = self.waiting[i].1;
                let mut waiting: Vec<(u64, usize)> = Vec::new();
                std::mem::swap(&mut waiting, &mut self.waiting);
                waiting.set(i, (caller, count + 1));
                proof {
                    assert(well_formed_rotation(waiting@)) by {
                        assert forall|a: int, b: int|
                            0 <= a < waiting@.len() && 0 <= b < waiting@.len() && a != b implies (
                            #[trigger] waiting@[a]).0 != (#[trigger] waiting@[b]).0 by {
                            assert(old(self)@[a].0 != old(self)@[b].0);
                        }
                    }
                }
                self.waiting = waiting;
                return;
            }
            i = i + 1;
        }
        let mut waiting: Vec<(u64, usize)> = Vec::new();
        std::mem::swap(&mut waiting, &mut self.waiting);
        waiting.push((caller, 1));
        proof {
            assert(well_formed_rotation(waiting@)) by {
                assert forall|a: int, b: int|
                    0 <= a < waiting@.len() && 0 <= b < waiting@.len() && a != b implies (
                    #[trigger] waiting@[a]).0 != (#[trigger] waiting@[b]).0 by {
                    if a < old(self)@.len() && b < old(self)@.len() {
                        assert(old(self)@[a].0 != old(self)@[b].0);
                    }
                }
            }
        }
        self.waiting = waiting;
    }

    /// Serves the caller at the front: its oldest waiting call goes next.
    /// The caller moves behind the others if it has more calls waiting, and
    /// leaves the rotation otherwise. `None` when no caller waits.
    pub fn serve(&mut self) -> (next: Option<u64>)
        ensures
            next == serve_step(old(self)@).0,
            final(self)@ == serve_step(old(self)@).1,
    {
        proof {
            use_type_invariant(&*self);
        }
        if self.waiting.len() == 0 {
            return None;
        }
        let mut waiting: Vec<(u64, usize)> = Vec::new();
        std::mem::swap(&mut waiting, &mut self.waiting);
        let (caller, count) = waiting.remove(0);
        if count > 1 {
            waiting.push((caller, count - 1));
        }
        proof {
            let old_order = old(self)@;
            assert(waiting@ == serve_step(old_order).1);
            assert(well_formed_rotation(waiting@)) by {
                assert forall|a: int, b: int|
                    0 <= a < waiting@.len() && 0 <= b < waiting@.len() && a != b implies (
                    #[trigger] waiting@[a]).0 != (#[trigger] waiting@[b]).0 by {
                    let n = old_order.len() - 1;
                    if a < n && b < n {
                        assert(old_order[a + 1].0 != old_order[b + 1].0);
                    } else if a < n {
                        assert(old_order[a + 1].0 != old_order[0].0);
                    } else if b < n {
                        assert(old_order[b + 1].0 != old_order[0].0);
                    }
                }
            }
        }
        self.waiting = waiting;
        Some(caller)
    }
}

/// Round-robin service: with no new arrivals, the caller at position `p` of
/// the rotation is served at the `p + 1`-th step, after each caller ahead
/// of it was served once.
pub proof fn law_round_robin(order: Seq<(u64, usize)>, p: int)
    requires
        well_formed_rotation(order),
        0 <= p < order.len(),
    ensures
        served(order, (p + 1) as nat).len() == p + 1,
        forall|i: int| 0 <= i <= p ==> #[trigger] served(order, (p + 1) as nat)[i] == order[i].0,
    decreases p,
{
    let next = serve_step(order).1;
    assert(serve_step(order).0 == Some(order[0].0));
    assert(forall|j: int| 0 <= j < order.len() - 1 ==> #[trigger] next[j] == order[j + 1]);
    if p == 0 {
        assert(served(next, 0) == Seq::<u64>::empty());
        assert(served(order, 1) =~= seq![order[0].0]);
    } else {
        assert(well_formed_rotation(next)) by {
            let n = order.len() - 1;
            assert forall|a: int, b: int|
                0 <= a < next.len() && 0 <= b < next.len() && a != b implies (#[trigger] next[a]).0
                != (#[trigger] next[b]).0 by {
                if a < n && b < n {
                    assert(order[a + 1].0 != order[b + 1].0);
                } else if a < n {
                    assert(order[a + 1].0 != order[0].0);
                } else if b < n {
                    assert(order[b + 1].0 != order[0].0);
                }
            }
        }
        law_round_robin(next, p - 1);
        let rest = served(next, p as nat);
        assert(served(order, (p + 1) as nat) == seq![order[0].0] + rest);
        assert forall|i: int| 0 <= i <= p implies #[trigger] served(order, (p + 1) as nat)[i]
            == order[i].0 by {
            if i > 0 {
                assert(rest[i - 1] == next[i - 1].0);
            }
        }
    }
}

} // verus!
