//! State that two halves of one subscription share.
use vstd::prelude::*;

verus! {

/// A value that two halves share. It can be read for good, and changed as long as both halves are
/// there.
///
/// The caller keeps it behind a lock, and hands it to either half while it holds that lock.
#[derive(Debug)]
pub struct State<T> {
    /// What is shared.
    pub value: T,
    /// Whether both halves are still there.
    pub open: bool,
}

impl<T> State<T> {
    /// A value that both halves have just come to share.
    pub fn new(value: T) -> (res: State<T>)
        ensures
            res.value == value,
            res.open,
    {
        State { value, open: true }
    }

    /// Notes that one of the halves has gone.
    pub fn release(&mut self)
        ensures
            final(self).value == old(self).value,
            !final(self).open,
    {
        self.open = false;
    }
}

} // verus!
