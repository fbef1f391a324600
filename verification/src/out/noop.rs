//! The no-op adapter: the compile-time fallback for hosts with no
//! recognized platform. It offers the same call surface as the real
//! adapters and discards everything.

use vstd::prelude::*;

verus! {

/// A per-message writer that discards all input.
pub struct Noop {}

impl Noop {
    /// A discarding writer for a very serious error message.
    pub fn error(_location: &str) -> Noop {
        Noop {  }
    }

    /// A discarding writer for a hazardous-situation message.
    pub fn warn(_location: &str) -> Noop {
        Noop {  }
    }

    /// A discarding writer for a useful-information message.
    pub fn info(_location: &str) -> Noop {
        Noop {  }
    }

    /// A discarding writer for a lower-priority message.
    pub fn debug(_location: &str) -> Noop {
        Noop {  }
    }

    /// A discarding writer for a very low priority message.
    pub fn trace(_location: &str) -> Noop {
        Noop {  }
    }

    /// Accepts a fragment and discards it: nothing is buffered and
    /// nothing becomes due for emission.
    pub fn write_text(&mut self, _text: &str) -> (chunks: Vec<Vec<u8>>)
        ensures
            *final (self) == *old(self),
            chunks@ == Seq::<Vec<u8>>::empty(),
    {
        Vec::new()
    }

    /// Flushes nothing: the discarded stream has no pending bytes.
    pub fn flush(&mut self) -> (chunk: Vec<u8>)
        ensures
            *final (self) == *old(self),
            chunk@ == Seq::<u8>::empty(),
    {
        Vec::new()
    }
}

} // verus!
