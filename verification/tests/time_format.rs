use rogu::time::{get, TimeDate};

#[test]
fn formats_a_known_moment_exactly() {
    let td = TimeDate::new(2020, 5, 7, 9, 30, 2);
    assert_eq!(td.as_bytes(), b"[2020-05-07 09:30:02] ");
}

#[test]
fn formats_the_widest_fields() {
    let td = TimeDate::new(9999, 12, 31, 23, 59, 59);
    assert_eq!(td.as_bytes(), b"[9999-12-31 23:59:59] ");
}

#[test]
fn formats_the_narrowest_fields() {
    let td = TimeDate::new(0, 1, 1, 0, 0, 0);
    assert_eq!(td.as_bytes(), b"[0000-01-01 00:00:00] ");
}

#[test]
fn the_clock_yields_a_well_shaped_block() {
    let td = get();
    let stamp = td.as_bytes();
    assert_eq!(stamp.len(), 22);
    assert_eq!(stamp[0], b'[');
    assert_eq!(stamp[5], b'-');
    assert_eq!(stamp[8], b'-');
    assert_eq!(stamp[11], b' ');
    assert_eq!(stamp[14], b':');
    assert_eq!(stamp[17], b':');
    assert_eq!(stamp[20], b']');
    assert_eq!(stamp[21], b' ');
    for i in [1, 2, 3, 4, 6, 7, 9, 10, 12, 13, 15, 16, 18, 19] {
        assert!(stamp[i].is_ascii_digit());
    }
    // A clock runs: the month and day fields never read zero.
    assert!(stamp[6] != b'0' || stamp[7] != b'0');
    assert!(stamp[9] != b'0' || stamp[10] != b'0');
}
