//! A singly linked sequential container.
//!
//! `V3ct<T>` owns a chain of nodes. The container holds the head node only;
//! each node owns its successor, so the ownership graph is a simple
//! singly-rooted chain. The length is tracked redundantly in a counter whose
//! agreement with the true chain length is the container's invariant,
//! `well_formed`.
//!
//! `push` prepends at the head in O(1); `queue` appends after the current
//! tail by walking the whole chain; `get` reads the element at a zero-based
//! depth counted from the head. Every fallible operation reports failure as
//! an absent result, never by panicking.

use vstd::prelude::*;

pub mod laws;

verus! {

/// One link of the chain: an element and ownership of the rest of the chain.
pub struct Node<T: Copy> {
    data: T,
    next: Option<Box<Node<T>>>,
}

/// A chain of owned nodes, reached from an optional head, with a redundant
/// length counter.
pub struct V3ct<T: Copy> {
    head: Option<Box<Node<T>>>,
    count: i32,
}

/// A depth clamped at zero: a non-positive depth means "this node".
pub open spec fn hop(level: int) -> int {
    if level <= 0 {
        0
    } else {
        level
    }
}

/// The element of `s` at depth `level`, with non-positive depths reading the
/// front, and absence past the end.
pub open spec fn seq_at<T>(s: Seq<T>, level: int) -> Option<T> {
    if hop(level) < s.len() {
        Some(s[hop(level)])
    } else {
        None
    }
}

impl<T: Copy> Node<T> {
    /// The elements of an optional chain, the nearest node first.
    pub open spec fn seq_of(node: Option<Box<Node<T>>>) -> Seq<T>
        decreases node,
    {
        match node {
            None => Seq::empty(),
            Some(n) => n.as_seq(),
        }
    }

    /// The elements of the chain rooted at this node, this node's first.
    pub closed spec fn as_seq(self) -> Seq<T>
        decreases self,
    {
        seq![self.data] + Node::<T>::seq_of(self.next)
    }

    pub fn new(data: T, next: Option<Box<Node<T>>>) -> (n: Node<T>)
        ensures
            n@ == seq![data] + Node::<T>::seq_of(next),
    {
        Node { data, next }
    }

    /// The successor node, absent at the chain's tail.
    pub fn get_next(&self) -> (r: Option<&Box<Node<T>>>)
        ensures
            match r {
                Some(n) => n@ == self@.drop_first() && self@.len() > 1,
                None => self@.len() == 1,
            },
    {
        proof {
            if self.next is Some {
                assert(self@.drop_first() =~= Node::<T>::seq_of(self.next));
            }
        }
        match &self.next {
            None => None,
            Some(node) => Some(node),
        }
    }

    /// A read-only view of the held element; never absent, since a node owns
    /// its element for its whole lifetime.
    pub fn get_data(&self) -> (r: Option<&T>)
        ensures
            match r {
                Some(d) => *d == self@[0],
                None => false,
            },
    {
        Some(&self.data)
    }

    /// Overwrites this node's successor link with a fresh single node holding
    /// `data`. Destructive: a previously attached successor chain is dropped,
    /// so the container only ever calls this on the true tail.
    pub fn add_next(&mut self, data: T)
        ensures
            final(self)@ == seq![old(self)@[0], data],
    {
        self.next = Some(Box::new(Node::new(data, None)));
        proof {
            assert(self@ =~= seq![old(self)@[0], data]);
        }
    }

    /// Walks `level` hops from this node and appends `data` there via
    /// `add_next`. Reports whether a node at that depth was found; when the
    /// chain ends first, nothing is changed. The container calls this only
    /// with the tail's depth, where the destructive overwrite in `add_next`
    /// drops no element.
    fn append_at(&mut self, level: i32, data: T) -> (ok: bool)
        ensures
            ok <==> hop(level as int) < old(self)@.len(),
            ok ==> final(self)@ == old(self)@.take(hop(level as int) + 1).push(data),
            !ok ==> final(self)@ == old(self)@,
        decreases *old(self),
    {
        if level <= 0 {
            self.add_next(data);
            proof {
                assert(old(self)@.take(1).push(data) =~= seq![old(self)@[0], data]);
            }
            true
        } else {
            match self.next.take() {
                None => {
                    proof {
                        assert(self@ =~= old(self)@);
                    }
                    false
                },
                Some(mut boxed) => {
                    let ok = (&mut *boxed).append_at(level - 1, data);
                    proof {
                        assert(old(self)@.drop_first() =~= Node::<T>::seq_of(old(self).next));
                    }
                    self.next = Some(boxed);
                    proof {
                        if ok {
                            assert(self@ =~= old(self)@.take(hop(level as int) + 1).push(data));
                        } else {
                            assert(self@ =~= old(self)@);
                        }
                    }
                    ok
                },
            }
        }
    }
}

impl<T: Copy> View for Node<T> {
    type V = Seq<T>;

    open spec fn view(&self) -> Seq<T> {
        self.as_seq()
    }
}

impl<T: Copy> V3ct<T> {
    /// The elements held, head first.
    pub closed spec fn as_seq(self) -> Seq<T> {
        Node::<T>::seq_of(self.head)
    }

    /// The counter agrees with the true chain length.
    pub closed spec fn well_formed(self) -> bool {
        self.count as int == self.as_seq().len()
    }

    pub fn new() -> (v: V3ct<T>)
        ensures
            v.well_formed(),
            v@ == Seq::<T>::empty(),
            v@.len() == 0,
    {
        V3ct { head: None, count: 0 }
    }

    pub fn size(&self) -> (r: i32)
        requires
            self.well_formed(),
        ensures
            r as int == self@.len(),
    {
        self.count
    }

    /// Prepends `data`: the new element becomes the head, in front of
    /// everything already held.
    pub fn push(&mut self, data: T)
        requires
            old(self).well_formed(),
            old(self)@.len() < i32::MAX as int,
        ensures
            final(self).well_formed(),
            final(self)@ == seq![data] + old(self)@,
            final(self)@.len() == old(self)@.len() + 1,
    {
        let next = self.head.take();
        self.head = Some(Box::new(Node::new(data, next)));
        self.count = self.count + 1;
    }

    /// Appends `data` after the current tail, the far end from the head, so
    /// that elements queued in turn read back in insertion order. On an
    /// empty container this is `push`.
    pub fn queue(&mut self, data: T)
        requires
            old(self).well_formed(),
            old(self)@.len() < i32::MAX as int,
        ensures
            final(self).well_formed(),
            final(self)@ == old(self)@.push(data),
            final(self)@.len() == old(self)@.len() + 1,
    {
        match self.head.take() {
            None => {
                self.push(data);
                proof {
                    assert(self@ =~= old(self)@.push(data));
                }
            },
            Some(mut node) => {
                let ok = (&mut *node).append_at(self.count - 1, data);
                self.head = Some(node);
                if ok {
                    self.count = self.count + 1;
                }
                proof {
                    assert(old(self)@.take(old(self)@.len() as int) =~= old(self)@);
                    assert(self@ =~= old(self)@.push(data));
                }
            },
        }
    }

    /// Detaches the head node, promotes its successor to be the new head,
    /// and returns the detached element. Absent on an empty container, which
    /// it leaves untouched.
    pub fn pop(&mut self) -> (r: Option<T>)
        requires
            old(self).well_formed(),
        ensures
            final(self).well_formed(),
            old(self)@.len() == 0 ==> r is None && final(self)@ == old(self)@,
            old(self)@.len() > 0 ==> r == Some(old(self)@[0])
                && final(self)@ == old(self)@.drop_first()
                && final(self)@.len() == old(self)@.len() - 1,
    {
        match self.head.take() {
            None => None,
            Some(node) => {
                proof {
                    assert(old(self)@.drop_first() =~= Node::<T>::seq_of(node.next));
                }
                self.head = node.next;
                self.count = self.count - 1;
                Some(node.data)
            },
        }
    }

    /// The head element: the most recently pushed one. Absent only on an
    /// empty container.
    pub fn start(&self) -> (r: Option<T>)
        requires
            self.well_formed(),
        ensures
            self@.len() == 0 ==> r is None,
            self@.len() > 0 ==> r == Some(self@[0]),
    {
        match &self.head {
            None => None,
            Some(node) => match node.get_data() {
                None => None,
                Some(d) => Some(*d),
            },
        }
    }

    /// The element at zero-based depth `index` from the head. Absent for a
    /// negative index and for one at or past `size()`; never panics.
    pub fn get(&self, index: i32) -> (r: Option<T>)
        requires
            self.well_formed(),
        ensures
            r == self.spec_get(index as int),
    {
        if index < 0 {
            return None;
        }
        match &self.head {
            None => None,
            Some(node) => get_next(&**node, index),
        }
    }

    /// The element at the far end from the head: the tail. Absent only on an
    /// empty container.
    pub fn end(&self) -> (r: Option<T>)
        requires
            self.well_formed(),
        ensures
            self@.len() == 0 ==> r is None,
            self@.len() > 0 ==> r == Some(self@.last()),
    {
        match &self.head {
            None => None,
            Some(_) => self.get(self.count - 1),
        }
    }

    /// What `get` returns, as a function of the contents alone.
    pub open spec fn spec_get(self, index: int) -> Option<T> {
        if 0 <= index < self.as_seq().len() {
            Some(self.as_seq()[index])
        } else {
            None
        }
    }
}

/// Walks `level` "next" hops from `start`, one hop per unit of depth, and
/// returns a copy of the element found there. A non-positive depth reads
/// `start` itself; walking off the end of the chain yields absence.
fn get_next<T: Copy>(start: &Node<T>, level: i32) -> (r: Option<T>)
    ensures
        r == seq_at(start@, level as int),
{
    let mut current: &Node<T> = start;
    let mut remaining: i32 = level;
    while remaining > 0
        invariant
            seq_at(current@, remaining as int) == seq_at(start@, level as int),
        decreases remaining,
    {
        match &current.next {
            None => {
                return None;
            },
            Some(node) => {
                proof {
                    assert(current@.drop_first() =~= Node::<T>::seq_of(current.next));
                }
                current = &**node;
                remaining = remaining - 1;
            },
        }
    }
    Some(current.data)
}

impl<T: Copy> View for V3ct<T> {
    type V = Seq<T>;

    open spec fn view(&self) -> Seq<T> {
        self.as_seq()
    }
}

} // verus!
