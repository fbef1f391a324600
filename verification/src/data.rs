//! The severity tag texts that a sink's buffer is pre-seeded with.

use crate::Level;
use vstd::prelude::*;

verus! {

/// The tag text for `level`, as bytes: the level's name and one
/// space — `"ERROR "`, `"WARN "`, `"INFO "`, `"DEBUG "`, `"TRACE "` —
/// and nothing for the `NONE` sentinel, which is never a message's
/// own level.
pub open spec fn tag_of(level: Level) -> Seq<u8> {
    match level {
        Level::NONE => Seq::empty(),
        Level::ERROR => seq![69u8, 82u8, 82u8, 79u8, 82u8, 32u8],
        Level::WARN => seq![87u8, 65u8, 82u8, 78u8, 32u8],
        Level::INFO => seq![73u8, 78u8, 70u8, 79u8, 32u8],
        Level::DEBUG => seq![68u8, 69u8, 66u8, 85u8, 71u8, 32u8],
        Level::TRACE => seq![84u8, 82u8, 65u8, 67u8, 69u8, 32u8],
    }
}

/// The tag text for `level`, built for seeding a buffer.
pub fn tag_bytes(level: Level) -> (tag: Vec<u8>)
    ensures
        tag@ == tag_of(level),
{
    let mut tag: Vec<u8> = Vec::new();
    match level {
        Level::NONE => {},
        Level::ERROR => {
            tag.push(69);
            tag.push(82);
            tag.push(82);
            tag.push(79);
            tag.push(82);
            tag.push(32);
        },
        Level::WARN => {
            tag.push(87);
            tag.push(65);
            tag.push(82);
            tag.push(78);
            tag.push(32);
        },
        Level::INFO => {
            tag.push(73);
            tag.push(78);
            tag.push(70);
            tag.push(79);
            tag.push(32);
        },
        Level::DEBUG => {
            tag.push(68);
            tag.push(69);
            tag.push(66);
            tag.push(85);
            tag.push(71);
            tag.push(32);
        },
        Level::TRACE => {
            tag.push(84);
            tag.push(82);
            tag.push(65);
            tag.push(67);
            tag.push(69);
            tag.push(32);
        },
    }
    proof {
        assert(tag@ =~= tag_of(level));
    }
    tag
}

} // verus!
