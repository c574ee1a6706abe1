use vstd::prelude::*;

verus! {

/// Stack of pending world events. The dispatcher pops the most recently
/// pushed event first (last in, first out), so the cascade started by one
/// event resolves fully before any earlier-queued event runs.
pub struct EventQueue<E> {
    items: Vec<E>,
}

impl<E> View for EventQueue<E> {
    type V = Seq<E>;

    closed spec fn view(&self) -> Seq<E> {
        self.items@
    }
}

impl<E: Copy> EventQueue<E> {
    pub fn new() -> (q: EventQueue<E>)
        ensures
            q@ == Seq::<E>::empty(),
    {
        EventQueue { items: Vec::new() }
    }

    pub fn len(&self) -> (n: usize)
        ensures
            n == self@.len(),
    {
        self.items.len()
    }

    pub fn push(&mut self, e: E)
        ensures
            final(self)@ == old(self)@.push(e),
    {
        self.items.push(e);
    }

    pub fn pop(&mut self) -> (e: E)
        requires
            old(self)@.len() > 0,
        ensures
            e == old(self)@.last(),
            final(self)@ == old(self)@.drop_last(),
    {
        let e = self.items.pop().unwrap();
        proof {
            assert(self@ =~= old(self)@.drop_last());
        }
        e
    }
}

/// Last in, first out: of two events pushed in order, the later one is handed
/// to the dispatcher first, and the earlier one only after it.
pub proof fn lemma_lifo<E>(s: Seq<E>, e1: E, e2: E)
    ensures
        s.push(e1).push(e2).last() == e2,
        s.push(e1).push(e2).drop_last() == s.push(e1),
{
    assert(s.push(e1).push(e2).drop_last() =~= s.push(e1));
}

} // verus!
