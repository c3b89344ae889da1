//! Errors of the disk writer queue.
use crate::text::push_str;
use vstd::prelude::*;

verus! {

/// Returned when the disk writer's queue is closed (its worker exited).
#[derive(Debug, Clone)]
pub struct DiskWriterError {
    pub reason: String,
}

impl DiskWriterError {
    /// The message shown for the error.
    pub fn message(&self) -> (r: String)
        ensures
            r@ == "DiskWriter channel closed: "@ + self.reason@,
    {
        let mut s = String::new();
        push_str(&mut s, "DiskWriter channel closed: ");
        push_str(&mut s, self.reason.as_str());
        assert(s@ =~= "DiskWriter channel closed: "@ + self.reason@);
        s
    }
}

} // verus!
