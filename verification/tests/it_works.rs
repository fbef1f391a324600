use rogu::out::std_c::FdWriter;
use rogu::out::wasm::Console;
use rogu::{is_enabled, set_level, Gate, Level};

#[test]
fn it_works() {
    let mut gate = Gate::new();
    set_level(&mut gate, Level::DEBUG);
    assert!(is_enabled(&gate, Level::ERROR));
    assert!(is_enabled(&gate, Level::DEBUG));
    assert!(!is_enabled(&gate, Level::TRACE));

    let location = "- [it_works.rs:1] - ";
    let lines = [
        format!("error {}, {}\n", "sad", "2"),
        format!(
            "{}\n",
            "asdjahsdkjsakjdhsakdhas;kfdahf;kjdshgf;kjdsgfhea;kjghfda;kjgrdal;kjghfd;kghrdskjghfdskjghfdskjgdf12323"
        ),
        format!("{}\n", "asdjahsdkjsakjdhsakdhas;kfdahf;kjdshgf;kjdsgfhea;kj"),
        format!("{}\n", "asdjahsdkjsakjdhsakdhas;kfdahf;kjdshgf;kjdsgfhea;kjg"),
        format!("{}\n", "asdjahsdkjsakjdhsakdhas;kfdahf;kjdshgf;kjdsgfhea;kjg1"),
    ];
    for line in &lines {
        let mut out = FdWriter::error(location);
        let seeded = out.len();
        let chunks = out.write_text(line);
        // Every line ends at a line boundary and fits the buffer, so
        // each write flushes exactly once and leaves the cursor at 0.
        assert_eq!(chunks.len(), 1);
        assert_eq!(chunks[0].len(), seeded + line.len());
        assert_eq!(out.len(), 0);
    }

    let mut out = Console::warn(location);
    let chunks = out.write_text("\n");
    assert_eq!(chunks.len(), 1);
    let mut expected = b"WARN ".to_vec();
    expected.extend_from_slice(location.as_bytes());
    expected.push(b'\n');
    assert_eq!(chunks[0], expected);

    let mut out = Console::warn(location);
    assert_eq!(out.write_text("warn!\n").len(), 1);
    let mut out = Console::info(location);
    assert_eq!(out.write_text("info!\n").len(), 1);
    let mut out = Console::debug(location);
    assert_eq!(out.write_text("debug!\n").len(), 1);
    let mut out = Console::trace(location);
    assert_eq!(out.write_text("trace!\n").len(), 1);
}
