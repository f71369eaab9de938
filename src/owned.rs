use vstd::prelude::*;

verus! {

/// One step in the life of a reference-counted resource.
#[derive(Clone, Copy, Debug, PartialEq, Eq, Structural)]
pub enum RefOp {
    /// A new owner is made from a live one, taking a reference of its own.
    Share,
    /// An owner gives its reference up.
    Release,
}

/// Number of shares in `ops`.
pub open spec fn shares(ops: Seq<RefOp>) -> int
    decreases ops.len(),
{
    if ops.len() == 0 {
        0
    } else {
        shares(ops.drop_last()) + if ops.last() == RefOp::Share {
            1int
        } else {
            0int
        }
    }
}

/// Number of releases in `ops`.
pub open spec fn releases(ops: Seq<RefOp>) -> int
    decreases ops.len(),
{
    if ops.len() == 0 {
        0
    } else {
        releases(ops.drop_last()) + if ops.last() == RefOp::Release {
            1int
        } else {
            0int
        }
    }
}

/// References outstanding after `ops`, starting from the one the creation made.
pub open spec fn count_after(ops: Seq<RefOp>) -> int {
    1 + shares(ops) - releases(ops)
}

/// The reference count of one resource. Creation makes the first reference; the
/// resource is destroyed when the last one is released, and may not be shared or
/// released after that.
#[derive(Debug)]
pub struct RefCount {
    count: u64,
}

impl RefCount {
    pub closed spec fn count_spec(&self) -> nat {
        self.count as nat
    }

    /// A new resource, held by one owner.
    pub fn create() -> (r: RefCount)
        ensures
            r.count_spec() == 1,
    {
        RefCount { count: 1 }
    }

    /// Whether the resource is still alive.
    pub fn is_alive(&self) -> (r: bool)
        ensures
            r == (self.count_spec() > 0),
    {
        self.count > 0
    }

    /// Takes one more reference on a live resource.
    pub fn reference(&mut self)
        requires
            old(self).count_spec() > 0,
            old(self).count_spec() < u64::MAX,
        ensures
            final(self).count_spec() == old(self).count_spec() + 1,
    {
        self.count = self.count + 1;
    }

    /// Gives one reference up; returns whether that destroyed the resource.
    pub fn dereference(&mut self) -> (destroyed: bool)
        requires
            old(self).count_spec() > 0,
        ensures
            final(self).count_spec() == old(self).count_spec() - 1,
            destroyed == (final(self).count_spec() == 0),
    {
        self.count = self.count - 1;
        self.count == 0
    }

    /// Performs one step; returns whether it destroyed the resource.
    pub fn apply(&mut self, op: RefOp) -> (destroyed: bool)
        requires
            old(self).count_spec() > 0,
            old(self).count_spec() < u64::MAX,
        ensures
            final(self).count_spec() == old(self).count_spec() + if op == RefOp::Share {
                1int
            } else {
                -1int
            },
            destroyed == (final(self).count_spec() == 0),
    {
        match op {
            RefOp::Share => {
                self.reference();
                false
            },
            RefOp::Release => self.dereference(),
        }
    }
}

/// Each step of `ops` finds the resource alive.
pub open spec fn stays_alive(ops: Seq<RefOp>) -> bool {
    forall|k: int| 0 <= k < ops.len() ==> count_after(#[trigger] ops.take(k)) > 0
}

/// Creates a resource and performs `ops` on it in order. Returns the references left
/// outstanding, or `None` where a step would find the resource already destroyed.
pub fn replay(ops: &Vec<RefOp>) -> (r: Option<u64>)
    requires
        ops@.len() < u64::MAX,
    ensures
        r == (if stays_alive(ops@) {
            Some(count_after(ops@) as u64)
        } else {
            None
        }),
        r is Some ==> count_after(ops@) >= 0,
{
    let mut rc = RefCount::create();
    let mut i: usize = 0;
    let n = ops.len();
    proof {
        assert(ops@.take(0) =~= Seq::<RefOp>::empty());
    }
    while i < n
        invariant
            n == ops@.len(),
            n < u64::MAX,
            i <= n,
            stays_alive(ops@.take(i as int)),
            rc.count_spec() == count_after(ops@.take(i as int)),
            rc.count_spec() <= i + 1,
        decreases n - i,
    {
        if !rc.is_alive() {
            proof {
                assert(!stays_alive(ops@));
            }
            return None;
        }
        rc.apply(ops[i]);
        proof {
            lemma_count_after_push(ops@.take(i as int), ops@[i as int]);
            assert(ops@.take(i as int + 1) =~= ops@.take(i as int).push(ops@[i as int]));
            assert forall|k: int| 0 <= k < i + 1 implies count_after(
                #[trigger] ops@.take(i as int + 1).take(k),
            ) > 0 by {
                assert(ops@.take(i as int + 1).take(k) =~= ops@.take(i as int).take(k)) by {
                    if k < i {
                    }
                }
                if k == i {
                    assert(ops@.take(i as int + 1).take(k) =~= ops@.take(i as int));
                }
            }
        }
        i = i + 1;
    }
    proof {
        assert(ops@.take(n as int) =~= ops@);
    }
    Some(rc.count)
}

/// Starting from a creation and applying `ops` in order keeps the count at
/// `count_after` of the steps done so far.
pub proof fn lemma_count_after_push(ops: Seq<RefOp>, op: RefOp)
    ensures
        count_after(ops.push(op)) == count_after(ops) + if op == RefOp::Share {
            1int
        } else {
            -1int
        },
{
    assert(ops.push(op).drop_last() =~= ops);
}

/// When every construction (the creation and each share) is matched by exactly one
/// release, no reference is left outstanding.
pub proof fn lemma_reference_balance(ops: Seq<RefOp>)
    requires
        releases(ops) == shares(ops) + 1,
    ensures
        count_after(ops) == 0,
{
}

} // verus!
