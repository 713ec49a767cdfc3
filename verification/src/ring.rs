//! A window on the newest messages of a stream.

use std::collections::VecDeque;
use vstd::prelude::*;

verus! {

/// What a window of `cap` messages holds after one more: the oldest makes room.
pub open spec fn pushed<T>(s: Seq<T>, cap: int, v: T) -> Seq<T> {
    if s.len() == cap {
        s.skip(1).push(v)
    } else {
        s.push(v)
    }
}

/// What a window of `cap` messages holds after the messages of `vs`, in their order.
pub open spec fn pushed_all<T>(s: Seq<T>, cap: int, vs: Seq<T>) -> Seq<T>
    decreases vs.len(),
{
    if vs.len() == 0 {
        s
    } else {
        pushed(pushed_all(s, cap, vs.drop_last()), cap, vs.last())
    }
}

/// A window keeps the newest messages, as many as it has room for, in the order in which
/// they came.
pub proof fn law_window_keeps_newest<T>(cap: int, vs: Seq<T>)
    requires
        0 < cap,
    ensures
        pushed_all(Seq::<T>::empty(), cap, vs) == (if vs.len() <= cap {
            vs
        } else {
            vs.skip(vs.len() - cap)
        }),
    decreases vs.len(),
{
    if vs.len() > 0 {
        law_window_keeps_newest(cap, vs.drop_last());
        let held = pushed_all(Seq::<T>::empty(), cap, vs.drop_last());
        if vs.len() <= cap {
            assert(held.push(vs.last()) == vs);
        } else if vs.len() == cap + 1 {
            assert(held.skip(1).push(vs.last()) == vs.skip(1));
        } else {
            assert(held.skip(1).push(vs.last()) == vs.skip(vs.len() - cap));
        }
    } else {
        assert(vs == Seq::<T>::empty());
    }
}

/// The newest `cap` messages of a stream.
pub struct Ring<T> {
    buf: VecDeque<T>,
    cap: usize,
}

impl<T> View for Ring<T> {
    type V = Seq<T>;

    /// The messages, oldest first.
    closed spec fn view(&self) -> Seq<T> {
        self.buf@
    }
}

impl<T> Ring<T> {
    /// How many messages it has room for.
    pub closed spec fn capacity(&self) -> int {
        self.cap as int
    }

    /// It has room, and holds no more than it has room for.
    pub open spec fn wf(&self) -> bool {
        0 < self.capacity() && self@.len() <= self.capacity() <= usize::MAX
    }

    /// An empty window.
    pub fn new(cap: usize) -> (r: Self)
        requires
            cap > 0,
        ensures
            r.wf(),
            r.capacity() == cap,
            r@ == Seq::<T>::empty(),
    {
        Ring { buf: VecDeque::new(), cap }
    }

    /// Takes a message in. The oldest leaves where there is no room.
    pub fn push(&mut self, v: T)
        requires
            old(self).wf(),
        ensures
            final(self).wf(),
            final(self).capacity() == old(self).capacity(),
            final(self)@ == pushed(old(self)@, old(self).capacity(), v),
    {
        if self.buf.len() == self.cap {
            let _ = self.buf.pop_front();
            assert(self.buf@ == old(self)@.skip(1));
        }
        self.buf.push_back(v);
    }

    /// How many messages it holds.
    pub fn len(&self) -> (n: usize)
        ensures
            n == self@.len(),
    {
        self.buf.len()
    }

    /// The message at `i`, counted from the oldest.
    pub fn get(&self, i: usize) -> (r: &T)
        requires
            i < self@.len(),
        ensures
            *r == self@[i as int],
    {
        &self.buf[i]
    }
}

} // verus!
