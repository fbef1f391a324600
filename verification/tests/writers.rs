use rogu::out::android::{priority_code, Log};
use rogu::out::noop::Noop;
use rogu::out::std_c::FdWriter;
use rogu::out::wasm::{Console, ConsoleFn};
use rogu::out::writer_for_level;
use rogu::Level;

#[test]
fn fd_writer_targets_the_right_stream() {
    assert_eq!(FdWriter::error("").fd(), 2);
    assert_eq!(FdWriter::warn("").fd(), 2);
    assert_eq!(FdWriter::info("").fd(), 1);
    assert_eq!(FdWriter::debug("").fd(), 1);
    assert_eq!(FdWriter::trace("").fd(), 1);
}

#[test]
fn fd_writer_seeds_tag_timestamp_and_location() {
    let mut w = FdWriter::error("- [main.rs:7] - ");
    let chunk = w.flush();
    assert_eq!(&chunk[..6], b"ERROR ");
    // The 22-byte timestamp block "[YYYY-MM-DD HH:MM:SS] ".
    let stamp = &chunk[6..28];
    assert_eq!(stamp[0], b'[');
    assert_eq!(stamp[5], b'-');
    assert_eq!(stamp[8], b'-');
    assert_eq!(stamp[11], b' ');
    assert_eq!(stamp[14], b':');
    assert_eq!(stamp[17], b':');
    assert_eq!(stamp[20], b']');
    assert_eq!(stamp[21], b' ');
    for i in [1, 2, 3, 4, 6, 7, 9, 10, 12, 13, 15, 16, 18, 19] {
        assert!(stamp[i].is_ascii_digit());
    }
    assert_eq!(&chunk[28..], b"- [main.rs:7] - ");
    assert_eq!(w.len(), 0);
}

#[test]
fn fd_writer_flushes_message_at_line_boundary() {
    let mut w = FdWriter::info("- [a.rs:1] - ");
    let seeded = w.len();
    let chunks = w.write_text("all good\n");
    assert_eq!(chunks.len(), 1);
    assert_eq!(chunks[0].len(), seeded + 9);
    assert!(chunks[0].ends_with(b"- [a.rs:1] - all good\n"));
    assert_eq!(w.len(), 0);
}

#[test]
fn console_targets_the_right_function() {
    assert_eq!(Console::error("").target(), ConsoleFn::Error);
    assert_eq!(Console::warn("").target(), ConsoleFn::Warn);
    assert_eq!(Console::info("").target(), ConsoleFn::Info);
    assert_eq!(Console::debug("").target(), ConsoleFn::Debug);
    assert_eq!(Console::trace("").target(), ConsoleFn::Trace);
}

#[test]
fn console_seeds_tag_and_location_and_chunks_messages() {
    let mut w = Console::info("- [web.rs:3] - ");
    let chunks = w.write_text("ready\n");
    assert_eq!(chunks.len(), 1);
    assert_eq!(chunks[0], b"INFO - [web.rs:3] - ready\n");
    assert_eq!(w.len(), 0);
    let chunks = w.write_text("partial");
    assert!(chunks.is_empty());
    assert_eq!(w.flush(), b"partial");
}

#[test]
fn os_log_chunks_are_null_terminated() {
    let mut w = Log::error("- [app.rs:9] - ");
    let chunks = w.write_text("boom\n");
    assert_eq!(chunks.len(), 1);
    assert_eq!(chunks[0], b"ERROR - [app.rs:9] - boom\n\0");
    assert_eq!(w.len(), 0);
    let chunks = w.write_text("pending");
    assert!(chunks.is_empty());
    assert_eq!(w.flush(), b"pending\0");
}

#[test]
fn os_log_priorities_match_the_facility_codes() {
    assert_eq!(priority_code(Log::error("").prio()), 6);
    assert_eq!(priority_code(Log::warn("").prio()), 5);
    assert_eq!(priority_code(Log::info("").prio()), 4);
    assert_eq!(priority_code(Log::debug("").prio()), 3);
    assert_eq!(priority_code(Log::trace("").prio()), 2);
}

#[test]
fn noop_discards_everything() {
    let mut w = Noop::error("- [x.rs:1] - ");
    assert!(w.write_text("dropped\n").is_empty());
    assert!(w.flush().is_empty());
    let mut w = Noop::trace("");
    assert!(w.write_text("").is_empty());
}

#[test]
fn writer_for_level_maps_severities_to_streams() {
    assert!(writer_for_level(Level::NONE, "").is_none());
    assert_eq!(writer_for_level(Level::ERROR, "").unwrap().fd(), 2);
    assert_eq!(writer_for_level(Level::WARN, "").unwrap().fd(), 2);
    assert_eq!(writer_for_level(Level::INFO, "").unwrap().fd(), 1);
    assert_eq!(writer_for_level(Level::DEBUG, "").unwrap().fd(), 1);
    assert_eq!(writer_for_level(Level::TRACE, "").unwrap().fd(), 1);
}

#[test]
fn console_chunks_an_oversized_fragment() {
    let mut w = Console::info("");
    assert_eq!(w.len(), 5); // "INFO "
    let text = "x".repeat(2 * 4096 + 1);
    let chunks = w.write_text(&text);
    assert_eq!(chunks.len(), 2);
    assert_eq!(chunks[0].len(), 4096);
    assert!(chunks[0].starts_with(b"INFO "));
    assert!(chunks[0][5..].iter().all(|b| *b == b'x'));
    assert_eq!(chunks[1].len(), 4096);
    assert!(chunks[1].iter().all(|b| *b == b'x'));
    // 5 seeded + 8193 written = 2 * 4096 + 6: six bytes stay buffered.
    assert_eq!(w.len(), 6);
    assert_eq!(w.flush(), b"xxxxxx");
}
