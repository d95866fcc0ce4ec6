use vstd::prelude::*;

verus! {

/// What the PTY reader hands to the controller.
#[derive(Debug)]
pub enum CustomEvent {
    /// A chunk of the shell's output.
    StdOut(Vec<u8>),
    /// The shell's output has ended.
    Terminate,
}

impl CustomEvent {
    /// The event for one read into `buf`: `Some(n)` when the read returned
    /// `n` bytes, `None` when it failed. A non-empty read gives its bytes; an
    /// empty read (end of file) or a failed one ends the stream.
    pub fn from_read(buf: &[u8], outcome: Option<usize>) -> (r: CustomEvent)
        requires
            outcome matches Some(n) ==> n <= buf@.len(),
        ensures
            match outcome {
                Some(n) => if n > 0 {
                    r matches CustomEvent::StdOut(v) && v@ == buf@.subrange(0, n as int)
                } else {
                    r matches CustomEvent::Terminate
                },
                None => r matches CustomEvent::Terminate,
            },
    {
        match outcome {
            Some(n) => {
                if n > 0 {
                    CustomEvent::StdOut(vstd::slice::slice_to_vec(&buf[0..n]))
                } else {
                    CustomEvent::Terminate
                }
            },
            None => CustomEvent::Terminate,
        }
    }

    /// Whether the reader stops after sending this event.
    pub fn ends_stream(&self) -> (r: bool)
        ensures
            r == (self matches CustomEvent::Terminate),
    {
        match self {
            CustomEvent::StdOut(_) => false,
            CustomEvent::Terminate => true,
        }
    }
}

} // verus!
