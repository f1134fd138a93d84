//! A buffer of input events gathered during one frame.
use vstd::prelude::*;

verus! {

pub struct Events<T> {
    events: Vec<T>,
}

impl<T> View for Events<T> {
    type V = Seq<T>;

    closed spec fn view(&self) -> Seq<T> {
        self.events@
    }
}

impl<T> Events<T> {
    pub fn new() -> (r: Self)
        ensures
            r@ == Seq::<T>::empty(),
    {
        Events { events: Vec::new() }
    }

    pub fn clear(&mut self)
        ensures
            final(self)@ == Seq::<T>::empty(),
    {
        self.events.clear();
    }

    pub fn send(&mut self, event: T)
        ensures
            final(self)@ == old(self)@.push(event),
    {
        self.events.push(event);
    }

    /// The events in the order they were sent.
    pub fn values(&self) -> (r: &[T])
        ensures
            r@ == self@,
    {
        self.events.as_slice()
    }
}

} // verus!
