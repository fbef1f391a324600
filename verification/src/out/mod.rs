//! The platform emission adapters. Each buffers through the same
//! verified sink core and differs only in where its chunks are meant
//! to go: a stream descriptor, a host console function, a
//! priority-parameterized OS log facility, or nowhere at all.

use crate::Level;
use crate::rank;
use vstd::prelude::*;
use vstd::string::StringSliceAdditionalSpecFns;

pub mod android;
pub mod noop;
pub mod std_c;
pub mod wasm;

verus! {

/// The platform logger of hosts with stream descriptors, which this
/// build targets.
pub type Out = std_c::FdWriter;

/// The writer that carries a message of severity `level`: the error
/// stream for error- and warning-class messages, the output stream for
/// the rest, and none at all for the `NONE` sentinel, which is never a
/// message's own level.
pub fn writer_for_level(level: Level, location: &str) -> (w: Option<Out>)
    requires
        location.spec_bytes().len() + 28 <= std_c::BUFFER_CAPACITY,
    ensures
        w is Some <==> rank(level) >= 1,
        w is Some ==> w.unwrap().fresh(
            if rank(level) <= 2 {
                2
            } else {
                1
            },
            level,
            location.spec_bytes(),
        ),
{
    match level {
        Level::NONE => None,
        Level::ERROR => Some(Out::error(location)),
        Level::WARN => Some(Out::warn(location)),
        Level::INFO => Some(Out::info(location)),
        Level::DEBUG => Some(Out::debug(location)),
        Level::TRACE => Some(Out::trace(location)),
    }
}

} // verus!
