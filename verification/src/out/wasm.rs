//! The console-API adapter: buffers log text for one of the five
//! severity-specific host console functions. The host call itself
//! lives outside this crate: each method returns the chunks that
//! became due, and the host hands every chunk, unchanged and in order,
//! to the console function that [`Console::target`] names.

use crate::Level;
use crate::data;
use crate::sink::{Sink, views_of, write_chunks, write_rest};
use vstd::prelude::*;
use vstd::string::StringSliceAdditionalSpecFns;

verus! {

/// The buffer capacity of the console sink.
pub const BUFFER_SIZE: usize = 4096;

/// Which of the five severity-specific host console functions a
/// writer's chunks are meant for.
#[derive(Clone, Copy, Debug, PartialEq, Eq, Structural)]
pub enum ConsoleFn {
    /// The host's error-severity console function.
    Error,
    /// The host's warning-severity console function.
    Warn,
    /// The host's information-severity console function.
    Info,
    /// The host's debug-severity console function.
    Debug,
    /// The host's trace-severity console function.
    Trace,
}

/// A per-message writer aimed at one host console function.
pub struct Console {
    fun: ConsoleFn,
    sink: Sink,
}

impl Console {
    /// The console function that this writer's chunks are meant for.
    pub closed spec fn fun(self) -> ConsoleFn {
        self.fun
    }

    /// The buffered bytes (the occupied prefix of the buffer).
    pub closed spec fn buffered(self) -> Seq<u8> {
        self.sink.buffered()
    }

    /// Every chunk handed out for emission so far, oldest first.
    pub closed spec fn emitted(self) -> Seq<Seq<u8>> {
        self.sink.emitted()
    }

    /// Every byte written into this writer, the seeded prefix included.
    pub closed spec fn accepted(self) -> Seq<u8> {
        self.sink.accepted()
    }

    /// Well-formedness: a sound sink of this adapter's capacity.
    pub closed spec fn wf(self) -> bool {
        self.sink.wf() && self.sink.capacity() == BUFFER_SIZE
    }

    /// What every constructor ensures: a fresh well-formed writer,
    /// aimed at `fun`, with nothing emitted yet and its buffer seeded
    /// with the tag of `level` and `location`.
    pub open spec fn fresh(self, fun: ConsoleFn, level: Level, location: Seq<u8>) -> bool {
        &&& self.wf()
        &&& self.fun() == fun
        &&& self.emitted() == Seq::<Seq<u8>>::empty()
        &&& self.buffered() == data::tag_of(level) + location
        &&& self.accepted() == self.buffered()
    }

    /// Builds a writer aimed at `fun` and seeds its buffer.
    fn new(fun: ConsoleFn, level: Level, location: &str) -> (w: Console)
        requires
            data::tag_of(level).len() + location.spec_bytes().len() <= BUFFER_SIZE,
        ensures
            w.fresh(fun, level, location.spec_bytes()),
    {
        let mut sink = Sink::new(BUFFER_SIZE);
        let tag = data::tag_bytes(level);
        sink.append(tag.as_slice());
        sink.append(location.as_bytes());
        let w = Console { fun, sink };
        proof {
            assert(Seq::<u8>::empty() + tag@ =~= tag@);
            assert(w.buffered() =~= data::tag_of(level) + location.spec_bytes());
        }
        w
    }

    /// A writer for a very serious error message, aimed at the host's
    /// error console function.
    pub fn error(location: &str) -> (w: Console)
        requires
            location.spec_bytes().len() + 6 <= BUFFER_SIZE,
        ensures
            w.fresh(ConsoleFn::Error, Level::ERROR, location.spec_bytes()),
    {
        Self::new(ConsoleFn::Error, Level::ERROR, location)
    }

    /// A writer for a hazardous-situation message, aimed at the host's
    /// warning console function.
    pub fn warn(location: &str) -> (w: Console)
        requires
            location.spec_bytes().len() + 6 <= BUFFER_SIZE,
        ensures
            w.fresh(ConsoleFn::Warn, Level::WARN, location.spec_bytes()),
    {
        Self::new(ConsoleFn::Warn, Level::WARN, location)
    }

    /// A writer for a useful-information message, aimed at the host's
    /// information console function.
    pub fn info(location: &str) -> (w: Console)
        requires
            location.spec_bytes().len() + 6 <= BUFFER_SIZE,
        ensures
            w.fresh(ConsoleFn::Info, Level::INFO, location.spec_bytes()),
    {
        Self::new(ConsoleFn::Info, Level::INFO, location)
    }

    /// A writer for a lower-priority message, aimed at the host's
    /// debug console function.
    pub fn debug(location: &str) -> (w: Console)
        requires
            location.spec_bytes().len() + 6 <= BUFFER_SIZE,
        ensures
            w.fresh(ConsoleFn::Debug, Level::DEBUG, location.spec_bytes()),
    {
        Self::new(ConsoleFn::Debug, Level::DEBUG, location)
    }

    /// A writer for a very low priority message, aimed at the host's
    /// trace console function.
    pub fn trace(location: &str) -> (w: Console)
        requires
            location.spec_bytes().len() + 6 <= BUFFER_SIZE,
        ensures
            w.fresh(ConsoleFn::Trace, Level::TRACE, location.spec_bytes()),
    {
        Self::new(ConsoleFn::Trace, Level::TRACE, location)
    }

    /// The console function to hand this writer's chunks to.
    pub fn target(&self) -> (fun: ConsoleFn)
        ensures
            fun == self.fun(),
    {
        self.fun
    }

    /// The cursor: how many bytes are currently buffered.
    pub fn len(&self) -> (n: usize)
        ensures
            n == self.buffered().len(),
    {
        self.sink.len()
    }

    /// Law: what a well-formed writer has handed out for emission,
    /// followed by what it still buffers, is exactly what was written
    /// into it — no byte is duplicated, dropped or reordered.
    pub proof fn lemma_conservation(self)
        requires
            self.wf(),
        ensures
            self.emitted().flatten() + self.buffered() == self.accepted(),
    {
        self.sink.lemma_conservation();
    }

    /// Appends `text`, chunking per the overflow protocol and flushing
    /// at a trailing line boundary. Returns the chunks that became
    /// due, in order; the host hands each to this writer's console
    /// function.
    pub fn write_text(&mut self, text: &str) -> (chunks: Vec<Vec<u8>>)
        requires
            old(self).wf(),
        ensures
            final (self).wf(),
            final (self).fun() == old(self).fun(),
            views_of(chunks@) == write_chunks(
                old(self).buffered(),
                BUFFER_SIZE as nat,
                text.spec_bytes(),
            ),
            final (self).buffered() == write_rest(
                old(self).buffered(),
                BUFFER_SIZE as nat,
                text.spec_bytes(),
            ),
            final (self).emitted() == old(self).emitted() + write_chunks(
                old(self).buffered(),
                BUFFER_SIZE as nat,
                text.spec_bytes(),
            ),
            final (self).accepted() == old(self).accepted() + text.spec_bytes(),
    {
        self.sink.write_text(text.as_bytes())
    }

    /// Takes the buffered prefix out for one call to this writer's
    /// console function and resets the cursor to zero.
    pub fn flush(&mut self) -> (chunk: Vec<u8>)
        requires
            old(self).wf(),
        ensures
            final (self).wf(),
            final (self).fun() == old(self).fun(),
            chunk@ == old(self).buffered(),
            final (self).buffered() == Seq::<u8>::empty(),
            final (self).emitted() == old(self).emitted().push(old(self).buffered()),
            final (self).accepted() == old(self).accepted(),
    {
        self.sink.flush()
    }
}

} // verus!
