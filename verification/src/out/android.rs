//! The OS-log adapter: buffers log text for a priority-parameterized
//! host log facility whose entry point takes a C-style terminated
//! string, so every chunk handed out is null-terminated after its
//! content. The capacity matches the facility's message limit, with
//! one byte reserved for the terminator.
//!
//! The host call itself lives outside this crate: each method returns
//! the chunks that became due, and the host hands every chunk,
//! unchanged and in order, to the facility at the priority that
//! [`Log::prio`] names.

use crate::Level;
use crate::data;
use crate::sink::{Sink, write_chunks, write_rest};
use vstd::prelude::*;
use vstd::string::StringSliceAdditionalSpecFns;

verus! {

/// The facility's message length limit, and so this sink's capacity.
pub const MSG_MAX_LEN: usize = 4000;

/// The host log facility's priorities, ranked as the facility ranks
/// them.
#[allow(non_camel_case_types)]
#[derive(Clone, Copy, Debug, PartialEq, Eq, Structural)]
pub enum LogPriority {
    /// The facility's unknown priority.
    UNKNOWN,
    /// The facility's default priority.
    DEFAULT,
    /// The facility's verbose priority.
    VERBOSE,
    /// The facility's debug priority.
    DEBUG,
    /// The facility's informational priority.
    INFO,
    /// The facility's warning priority.
    WARN,
    /// The facility's error priority.
    ERROR,
    /// The facility's fatal priority.
    FATAL,
    /// The facility's silent priority.
    SILENT,
}

/// The numeric code the host facility gives each priority.
pub open spec fn priority_rank(prio: LogPriority) -> int {
    match prio {
        LogPriority::UNKNOWN => 0,
        LogPriority::DEFAULT => 1,
        LogPriority::VERBOSE => 2,
        LogPriority::DEBUG => 3,
        LogPriority::INFO => 4,
        LogPriority::WARN => 5,
        LogPriority::ERROR => 6,
        LogPriority::FATAL => 7,
        LogPriority::SILENT => 8,
    }
}

/// The numeric code of `prio`, for the host facility's entry point.
pub fn priority_code(prio: LogPriority) -> (code: i32)
    ensures
        code == priority_rank(prio),
{
    match prio {
        LogPriority::UNKNOWN => 0,
        LogPriority::DEFAULT => 1,
        LogPriority::VERBOSE => 2,
        LogPriority::DEBUG => 3,
        LogPriority::INFO => 4,
        LogPriority::WARN => 5,
        LogPriority::ERROR => 6,
        LogPriority::FATAL => 7,
        LogPriority::SILENT => 8,
    }
}

/// A per-message writer aimed at the host log facility.
pub struct Log {
    prio: LogPriority,
    sink: Sink,
}

impl Log {
    /// The priority that this writer's chunks are meant for.
    pub closed spec fn priority(self) -> LogPriority {
        self.prio
    }

    /// The buffered bytes (the occupied prefix of the buffer).
    pub closed spec fn buffered(self) -> Seq<u8> {
        self.sink.buffered()
    }

    /// Every chunk handed out for emission so far, oldest first — the
    /// content bytes, without the terminator each chunk carries on its
    /// way to the host.
    pub closed spec fn emitted(self) -> Seq<Seq<u8>> {
        self.sink.emitted()
    }

    /// Every byte written into this writer, the seeded prefix included.
    pub closed spec fn accepted(self) -> Seq<u8> {
        self.sink.accepted()
    }

    /// Well-formedness: a sound sink of this adapter's capacity.
    pub closed spec fn wf(self) -> bool {
        self.sink.wf() && self.sink.capacity() == MSG_MAX_LEN
    }

    /// What every constructor ensures: a fresh well-formed writer,
    /// aimed at `prio`, with nothing emitted yet and its buffer seeded
    /// with the tag of `level` and `location`.
    pub open spec fn fresh(self, prio: LogPriority, level: Level, location: Seq<u8>) -> bool {
        &&& self.wf()
        &&& self.priority() == prio
        &&& self.emitted() == Seq::<Seq<u8>>::empty()
        &&& self.buffered() == data::tag_of(level) + location
        &&& self.accepted() == self.buffered()
    }

    /// Builds a writer aimed at `prio` and seeds its buffer.
    fn new(prio: LogPriority, level: Level, location: &str) -> (w: Log)
        requires
            data::tag_of(level).len() + location.spec_bytes().len() <= MSG_MAX_LEN,
        ensures
            w.fresh(prio, level, location.spec_bytes()),
    {
        let mut sink = Sink::new(MSG_MAX_LEN);
        let tag = data::tag_bytes(level);
        sink.append(tag.as_slice());
        sink.append(location.as_bytes());
        let w = Log { prio, sink };
        proof {
            assert(Seq::<u8>::empty() + tag@ =~= tag@);
            assert(w.buffered() =~= data::tag_of(level) + location.spec_bytes());
        }
        w
    }

    /// A writer for a very serious error message, at error priority.
    pub fn error(location: &str) -> (w: Log)
        requires
            location.spec_bytes().len() + 6 <= MSG_MAX_LEN,
        ensures
            w.fresh(LogPriority::ERROR, Level::ERROR, location.spec_bytes()),
    {
        Self::new(LogPriority::ERROR, Level::ERROR, location)
    }

    /// A writer for a hazardous-situation message, at warning
    /// priority.
    pub fn warn(location: &str) -> (w: Log)
        requires
            location.spec_bytes().len() + 6 <= MSG_MAX_LEN,
        ensures
            w.fresh(LogPriority::WARN, Level::WARN, location.spec_bytes()),
    {
        Self::new(LogPriority::WARN, Level::WARN, location)
    }

    /// A writer for a useful-information message, at informational
    /// priority.
    pub fn info(location: &str) -> (w: Log)
        requires
            location.spec_bytes().len() + 6 <= MSG_MAX_LEN,
        ensures
            w.fresh(LogPriority::INFO, Level::INFO, location.spec_bytes()),
    {
        Self::new(LogPriority::INFO, Level::INFO, location)
    }

    /// A writer for a lower-priority message, at debug priority.
    pub fn debug(location: &str) -> (w: Log)
        requires
            location.spec_bytes().len() + 6 <= MSG_MAX_LEN,
        ensures
            w.fresh(LogPriority::DEBUG, Level::DEBUG, location.spec_bytes()),
    {
        Self::new(LogPriority::DEBUG, Level::DEBUG, location)
    }

    /// A writer for a very low priority message, at verbose priority.
    pub fn trace(location: &str) -> (w: Log)
        requires
            location.spec_bytes().len() + 6 <= MSG_MAX_LEN,
        ensures
            w.fresh(LogPriority::VERBOSE, Level::TRACE, location.spec_bytes()),
    {
        Self::new(LogPriority::VERBOSE, Level::TRACE, location)
    }

    /// The priority to hand this writer's chunks at.
    pub fn prio(&self) -> (prio: LogPriority)
        ensures
            prio == self.priority(),
    {
        self.prio
    }

    /// The cursor: how many bytes are currently buffered.
    pub fn len(&self) -> (n: usize)
        ensures
            n == self.buffered().len(),
    {
        self.sink.len()
    }

    /// Law: what a well-formed writer has handed out for emission,
    /// followed by what it still buffers, is exactly what was written
    /// into it — no byte is duplicated, dropped or reordered.
    pub proof fn lemma_conservation(self)
        requires
            self.wf(),
        ensures
            self.emitted().flatten() + self.buffered() == self.accepted(),
    {
        self.sink.lemma_conservation();
    }

    /// Appends `text`, chunking per the overflow protocol and flushing
    /// at a trailing line boundary. Returns the chunks that became
    /// due, each null-terminated after its content, in order; the host
    /// hands each to the facility at this writer's priority.
    pub fn write_text(&mut self, text: &str) -> (chunks: Vec<Vec<u8>>)
        requires
            old(self).wf(),
        ensures
            final (self).wf(),
            final (self).priority() == old(self).priority(),
            chunks@.len() == write_chunks(
                old(self).buffered(),
                MSG_MAX_LEN as nat,
                text.spec_bytes(),
            ).len(),
            forall|i: int|
                0 <= i < chunks@.len() ==> #[trigger] chunks@[i]@ == write_chunks(
                    old(self).buffered(),
                    MSG_MAX_LEN as nat,
                    text.spec_bytes(),
                )[i] + seq![0u8],
            final (self).buffered() == write_rest(
                old(self).buffered(),
                MSG_MAX_LEN as nat,
                text.spec_bytes(),
            ),
            final (self).emitted() == old(self).emitted() + write_chunks(
                old(self).buffered(),
                MSG_MAX_LEN as nat,
                text.spec_bytes(),
            ),
            final (self).accepted() == old(self).accepted() + text.spec_bytes(),
    {
        let ghost spec_chunks = write_chunks(
            old(self).buffered(),
            MSG_MAX_LEN as nat,
            text.spec_bytes(),
        );
        let mut raw = self.sink.write_text(text.as_bytes());
        let mut chunks: Vec<Vec<u8>> = Vec::new();
        proof {
            assert(forall|j: int|
                0 <= j < raw@.len() ==> #[trigger] raw@[j]@ == spec_chunks[chunks@.len() + j]);
        }
        while raw.len() > 0
            invariant
                chunks@.len() + raw@.len() == spec_chunks.len(),
                forall|i: int|
                    0 <= i < chunks@.len() ==> #[trigger] chunks@[i]@ == spec_chunks[i] + seq![
                        0u8,
                    ],
                forall|j: int|
                    0 <= j < raw@.len() ==> #[trigger] raw@[j]@ == spec_chunks[chunks@.len() + j],
            decreases raw@.len(),
        {
            let mut chunk = raw.remove(0);
            chunk.push(0);
            chunks.push(chunk);
        }
        chunks
    }

    /// Takes the buffered prefix out, null-terminated after its
    /// content, for one call to the host facility, and resets the
    /// cursor to zero.
    pub fn flush(&mut self) -> (chunk: Vec<u8>)
        requires
            old(self).wf(),
        ensures
            final (self).wf(),
            final (self).priority() == old(self).priority(),
            chunk@ == old(self).buffered() + seq![0u8],
            final (self).buffered() == Seq::<u8>::empty(),
            final (self).emitted() == old(self).emitted().push(old(self).buffered()),
            final (self).accepted() == old(self).accepted(),
    {
        let mut chunk = self.sink.flush();
        chunk.push(0);
        proof {
            assert(chunk@ =~= old(self).buffered() + seq![0u8]);
        }
        chunk
    }
}

} // verus!
