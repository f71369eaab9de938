use vstd::prelude::*;

verus! {

/// Strictly ascending, hence free of duplicates.
pub open spec fn sorted(s: Seq<u32>) -> bool {
    forall|i: int, j: int| 0 <= i < j < s.len() ==> s[i] < s[j]
}

/// Position of the first element not below `c`.
fn find_pos(v: &Vec<u32>, c: u32) -> (i: usize)
    requires
        sorted(v@),
    ensures
        i <= v@.len(),
        forall|k: int| 0 <= k < i ==> v@[k] < c,
        i < v@.len() ==> v@[i as int] >= c,
{
    let mut i: usize = 0;
    while i < v.len() && v[i] < c
        invariant
            i <= v@.len(),
            forall|k: int| 0 <= k < i ==> v@[k] < c,
        decreases v@.len() - i,
    {
        i = i + 1;
    }
    i
}

fn insert_sorted(v: &mut Vec<u32>, c: u32)
    requires
        sorted(old(v)@),
    ensures
        sorted(final(v)@),
        forall|x: u32| final(v)@.contains(x) <==> (old(v)@.contains(x) || x == c),
{
    let i = find_pos(v, c);
    if i < v.len() && v[i] == c {
        return;
    }
    let ghost o = v@;
    v.insert(i, c);
    proof {
        let n = v@;
        assert forall|a: int, b: int| 0 <= a < b < n.len() implies n[a] < n[b] by {
            if b < i {
            } else if b == i {
            } else if a < i {
                assert(n[b] == o[b - 1]);
            } else if a == i {
                assert(n[b] == o[b - 1]);
                if b - 1 > i {
                    assert(o[i as int] < o[b - 1]);
                }
            } else {
                assert(n[a] == o[a - 1]);
                assert(n[b] == o[b - 1]);
            }
        }
        assert forall|x: u32| n.contains(x) <==> (o.contains(x) || x == c) by {
            if n.contains(x) {
                let k = choose|k: int| 0 <= k < n.len() && n[k] == x;
                if k < i {
                    assert(o[k] == x);
                } else if k > i {
                    assert(o[k - 1] == x);
                }
            }
            if o.contains(x) {
                let k = choose|k: int| 0 <= k < o.len() && o[k] == x;
                if k < i {
                    assert(n[k] == x);
                } else {
                    assert(n[k + 1] == x);
                }
            }
            if x == c {
                assert(n[i as int] == x);
            }
        }
    }
}

fn remove_sorted(v: &mut Vec<u32>, c: u32)
    requires
        sorted(old(v)@),
    ensures
        sorted(final(v)@),
        forall|x: u32| final(v)@.contains(x) <==> (old(v)@.contains(x) && x != c),
{
    let i = find_pos(v, c);
    if i < v.len() && v[i] == c {
        let ghost o = v@;
        v.remove(i);
        proof {
            let n = v@;
            assert forall|a: int, b: int| 0 <= a < b < n.len() implies n[a] < n[b] by {
                if a < i {
                    if b >= i {
                        assert(n[b] == o[b + 1]);
                    }
                } else {
                    assert(n[a] == o[a + 1]);
                    assert(n[b] == o[b + 1]);
                }
            }
            assert forall|x: u32| n.contains(x) <==> (o.contains(x) && x != c) by {
                if n.contains(x) {
                    let k = choose|k: int| 0 <= k < n.len() && n[k] == x;
                    if k < i {
                        assert(o[k] == x);
                    } else {
                        assert(o[k + 1] == x);
                    }
                }
                if o.contains(x) && x != c {
                    let k = choose|k: int| 0 <= k < o.len() && o[k] == x;
                    if k < i {
                        assert(n[k] == x);
                    } else {
                        assert(k != i);
                        assert(n[k - 1] == x);
                    }
                }
            }
        }
    } else {
        proof {
            assert forall|x: u32| v@.contains(x) implies x != c by {
                let k = choose|k: int| 0 <= k < v@.len() && v@[k] == x;
                if k >= i {
                    if k > i {
                        assert(v@[i as int] < v@[k]);
                    }
                }
            }
        }
    }
}

/// A set of Unicode codepoints.
///
/// It is held as an ascending list of values and a flag that complements it, so
/// that the set of all codepoints is as cheap as the empty one.
#[derive(Debug, PartialEq, Eq)]
pub struct HbSet {
    elems: Vec<u32>,
    inverted: bool,
}

impl View for HbSet {
    type V = Set<u32>;

    closed spec fn view(&self) -> Set<u32> {
        Set::new(|c: u32| self.inverted != self.elems@.contains(c))
    }
}

impl HbSet {
    /// The list and the flag are in their canonical form.
    pub closed spec fn wf(&self) -> bool {
        sorted(self.elems@)
    }

    /// Whether the set is held as a complement; its members can then not be listed.
    pub closed spec fn inverted_spec(&self) -> bool {
        self.inverted
    }

    /// The empty set.
    pub fn new() -> (r: HbSet)
        ensures
            r.wf(),
            r@ == Set::<u32>::empty(),
            !r.inverted_spec(),
    {
        let r = HbSet { elems: Vec::new(), inverted: false };
        proof {
            assert(r@ =~= Set::<u32>::empty());
        }
        r
    }

    pub fn is_inverted(&self) -> (r: bool)
        ensures
            r == self.inverted_spec(),
    {
        self.inverted
    }

    pub fn contains(&self, c: u32) -> (r: bool)
        requires
            self.wf(),
        ensures
            r == self@.contains(c),
    {
        let i = find_pos(&self.elems, c);
        let present = i < self.elems.len() && self.elems[i] == c;
        proof {
            if !present && self.elems@.contains(c) {
                let k = choose|k: int| 0 <= k < self.elems@.len() && self.elems@[k] == c;
                if k > i {
                    assert(self.elems@[i as int] < self.elems@[k]);
                }
            }
        }
        self.inverted != present
    }

    /// Adds one codepoint; adding a member changes nothing.
    pub fn add(&mut self, c: u32)
        requires
            old(self).wf(),
        ensures
            final(self).wf(),
            final(self)@ == old(self)@.insert(c),
            final(self).inverted_spec() == old(self).inverted_spec(),
    {
        if self.inverted {
            remove_sorted(&mut self.elems, c);
        } else {
            insert_sorted(&mut self.elems, c);
        }
        proof {
            assert(self@ =~= old(self)@.insert(c));
        }
    }

    /// Deletes one codepoint; deleting a non-member changes nothing.
    pub fn delete(&mut self, c: u32)
        requires
            old(self).wf(),
        ensures
            final(self).wf(),
            final(self)@ == old(self)@.remove(c),
            final(self).inverted_spec() == old(self).inverted_spec(),
    {
        if self.inverted {
            insert_sorted(&mut self.elems, c);
        } else {
            remove_sorted(&mut self.elems, c);
        }
        proof {
            assert(self@ =~= old(self)@.remove(c));
        }
    }

    /// Adds each of `chars`.
    pub fn add_chars(&mut self, chars: &[u32])
        requires
            old(self).wf(),
        ensures
            final(self).wf(),
            final(self)@ == old(self)@.union(chars@.to_set()),
            final(self).inverted_spec() == old(self).inverted_spec(),
    {
        let mut i: usize = 0;
        while i < chars.len()
            invariant
                i <= chars@.len(),
                self.wf(),
                self@ == old(self)@.union(chars@.take(i as int).to_set()),
                self.inverted_spec() == old(self).inverted_spec(),
            decreases chars@.len() - i,
        {
            self.add(chars[i]);
            proof {
                assert(chars@.take(i as int + 1) =~= chars@.take(i as int).push(chars@[i as int]));
                chars@.take(i as int).lemma_push_to_set_commute(chars@[i as int]);
                assert(self@ =~= old(self)@.union(chars@.take(i as int + 1).to_set()));
            }
            i = i + 1;
        }
        proof {
            assert(chars@.take(i as int) =~= chars@);
        }
    }

    /// Deletes each of `chars`.
    pub fn delete_chars(&mut self, chars: &[u32])
        requires
            old(self).wf(),
        ensures
            final(self).wf(),
            final(self)@ == old(self)@.difference(chars@.to_set()),
            final(self).inverted_spec() == old(self).inverted_spec(),
    {
        let mut i: usize = 0;
        while i < chars.len()
            invariant
                i <= chars@.len(),
                self.wf(),
                self@ == old(self)@.difference(chars@.take(i as int).to_set()),
                self.inverted_spec() == old(self).inverted_spec(),
            decreases chars@.len() - i,
        {
            self.delete(chars[i]);
            proof {
                assert(chars@.take(i as int + 1) =~= chars@.take(i as int).push(chars@[i as int]));
                chars@.take(i as int).lemma_push_to_set_commute(chars@[i as int]);
                assert(self@ =~= old(self)@.difference(chars@.take(i as int + 1).to_set()));
            }
            i = i + 1;
        }
        proof {
            assert(chars@.take(i as int) =~= chars@);
        }
    }

    /// Empties the set.
    pub fn clear(&mut self)
        ensures
            final(self).wf(),
            final(self)@ == Set::<u32>::empty(),
            !final(self).inverted_spec(),
    {
        self.elems = Vec::new();
        self.inverted = false;
        proof {
            assert(self@ =~= Set::<u32>::empty());
        }
    }

    /// Complements the set over all codepoint values.
    pub fn invert(&mut self)
        requires
            old(self).wf(),
        ensures
            final(self).wf(),
            final(self)@ == Set::<u32>::full().difference(old(self)@),
            final(self).inverted_spec() == !old(self).inverted_spec(),
    {
        self.inverted = !self.inverted;
        proof {
            assert(self@ =~= Set::<u32>::full().difference(old(self)@));
        }
    }
}

/// The members of a set that is not held as a complement, in ascending order.
pub fn u32_array_from_hb_set(set: &HbSet) -> (r: Vec<u32>)
    requires
        set.wf(),
        !set.inverted_spec(),
    ensures
        sorted(r@),
        forall|c: u32| r@.contains(c) <==> set@.contains(c),
{
    set.elems.clone()
}

} // verus!
