//! The last few lines of the on-screen debug log.
use vstd::prelude::*;
use std::collections::VecDeque;

verus! {

/// How many lines the log keeps.
pub const MAX_LOG_SIZE: usize = 10;

pub struct OnScreenDebugLog {
    buffer: VecDeque<String>,
}

impl View for OnScreenDebugLog {
    type V = Seq<String>;

    closed spec fn view(&self) -> Seq<String> {
        self.buffer@
    }
}

impl OnScreenDebugLog {
    pub fn new() -> (r: Self)
        ensures
            r@ == Seq::<String>::empty(),
    {
        OnScreenDebugLog { buffer: VecDeque::new() }
    }

    /// Appends a line; past the limit the oldest line goes.
    pub fn log(&mut self, message: String)
        ensures
            old(self)@.len() + 1 > MAX_LOG_SIZE ==> final(self)@ == old(self)@.push(message).drop_first(),
            old(self)@.len() + 1 <= MAX_LOG_SIZE ==> final(self)@ == old(self)@.push(message),
    {
        self.buffer.push_back(message);
        if self.buffer.len() > MAX_LOG_SIZE {
            self.buffer.pop_front();
        }
    }

    /// The kept lines, oldest first.
    pub fn get(&self) -> (r: Vec<String>)
        ensures
            r@ == self@,
    {
        let mut out: Vec<String> = Vec::new();
        let mut i: usize = 0;
        while i < self.buffer.len()
            invariant
                i <= self@.len(),
                out@ =~= self@.take(i as int),
            decreases self@.len() - i,
        {
            out.push(self.buffer[i].clone());
            i = i + 1;
        }
        assert(self@.take(i as int) =~= self@);
        out
    }
}

/// Writes a line to the given log.
pub fn debug_log(log: &mut OnScreenDebugLog, message: String)
    ensures
        old(log)@.len() + 1 > MAX_LOG_SIZE ==> final(log)@ == old(log)@.push(message).drop_first(),
        old(log)@.len() + 1 <= MAX_LOG_SIZE ==> final(log)@ == old(log)@.push(message),
{
    log.log(message);
}

} // verus!
