use rogu::sink::Sink;

fn written(chunks: &[Vec<u8>]) -> Vec<u8> {
    let mut all = Vec::new();
    for chunk in chunks {
        all.extend_from_slice(chunk);
    }
    all
}

#[test]
fn small_fragment_then_flush_emits_it_once() {
    let mut sink = Sink::new(8);
    let chunks = sink.write_text(b"hello");
    assert!(chunks.is_empty());
    assert_eq!(sink.len(), 5);
    let chunk = sink.flush();
    assert_eq!(chunk, b"hello");
    assert_eq!(sink.len(), 0);
}

#[test]
fn fragment_ending_in_line_feed_flushes_exactly_once() {
    let mut sink = Sink::new(8);
    let chunks = sink.write_text(b"hi\n");
    assert_eq!(chunks.len(), 1);
    assert_eq!(chunks[0], b"hi\n");
    assert_eq!(sink.len(), 0);
}

#[test]
fn capacity_eight_scenario() {
    // Writes "ABCDE" then "FGH\n" into a capacity-8 sink: the first
    // write only buffers; the second fills the buffer to exactly 8,
    // flushes it, and then flushes the line feed at the line boundary
    // (this sink's policy keeps the line feed in the emitted bytes).
    let mut sink = Sink::new(8);
    let chunks = sink.write_text(b"ABCDE");
    assert!(chunks.is_empty());
    assert_eq!(sink.len(), 5);
    let chunks = sink.write_text(b"FGH\n");
    assert_eq!(chunks.len(), 2);
    assert_eq!(chunks[0], b"ABCDEFGH");
    assert_eq!(chunks[0].len(), 8);
    assert_eq!(chunks[1], b"\n");
    assert_eq!(sink.len(), 0);
}

#[test]
fn triple_capacity_plus_one_scenario() {
    // A single fragment of length 3 * capacity + 1 triggers exactly 3
    // intermediate flushes of one capacity each, and leaves exactly
    // one byte buffered.
    let text = b"abcdefghijklmnopqrstuvwxy";
    assert_eq!(text.len(), 3 * 8 + 1);
    let mut sink = Sink::new(8);
    let chunks = sink.write_text(text);
    assert_eq!(chunks.len(), 3);
    assert_eq!(chunks[0], b"abcdefgh");
    assert_eq!(chunks[1], b"ijklmnop");
    assert_eq!(chunks[2], b"qrstuvwx");
    assert_eq!(sink.len(), 1);
    assert_eq!(sink.flush(), b"y");
}

#[test]
fn oversized_fragment_conserves_bytes_in_order() {
    let text = b"abcdefghij";
    let mut sink = Sink::new(4);
    let chunks = sink.write_text(text);
    assert_eq!(chunks.len(), 2);
    assert_eq!(chunks[0], b"abcd");
    assert_eq!(chunks[1], b"efgh");
    let mut all = written(&chunks);
    all.extend_from_slice(&sink.flush());
    assert_eq!(all, text);
}

#[test]
fn empty_fragment_is_a_no_op() {
    let mut sink = Sink::new(4);
    let chunks = sink.write_text(b"ab");
    assert!(chunks.is_empty());
    let chunks = sink.write_text(b"");
    assert!(chunks.is_empty());
    assert_eq!(sink.len(), 2);
}

#[test]
fn exactly_full_buffer_flushes_on_next_write_only() {
    let mut sink = Sink::new(4);
    let chunks = sink.write_text(b"abcd");
    assert!(chunks.is_empty());
    assert_eq!(sink.len(), 4);
    let chunks = sink.write_text(b"e");
    assert_eq!(chunks.len(), 1);
    assert_eq!(chunks[0], b"abcd");
    assert_eq!(sink.len(), 1);
}

#[test]
fn flush_of_empty_sink_emits_empty_chunk() {
    let mut sink = Sink::new(4);
    let chunk = sink.flush();
    assert!(chunk.is_empty());
    assert_eq!(sink.len(), 0);
}

#[test]
fn overflow_chunks_start_with_the_buffered_prefix() {
    let mut sink = Sink::new(4);
    assert!(sink.write_text(b"ab").is_empty());
    let chunks = sink.write_text(b"cdefghijk");
    assert_eq!(chunks.len(), 2);
    assert_eq!(chunks[0], b"abcd");
    assert_eq!(chunks[1], b"efgh");
    assert_eq!(sink.len(), 3);
    assert_eq!(sink.flush(), b"ijk");
}
