use ft60x::counter_check::count_counter_gaps;

fn words(values: &[u32]) -> Vec<u8> {
    values.iter().flat_map(|v| v.to_le_bytes()).collect()
}

#[test]
fn consecutive_counter_has_no_gap() {
    let buf = words(&[5, 6, 7, 8]);
    assert_eq!(count_counter_gaps(&buf, 4), (0, 8));
}

#[test]
fn gaps_are_counted() {
    let buf = words(&[1, 2, 4, 5, 9]);
    assert_eq!(count_counter_gaps(&buf, 0), (2, 9));
    // the first word is compared with the last word of the previous buffer
    assert_eq!(count_counter_gaps(&buf, 7), (3, 9));
}

#[test]
fn counter_wraps_at_the_top() {
    let buf = words(&[u32::MAX, 0, 1]);
    assert_eq!(count_counter_gaps(&buf, u32::MAX - 1), (0, 1));
}

#[test]
fn trailing_bytes_are_ignored() {
    let mut buf = words(&[1, 2]);
    buf.extend_from_slice(&[0xff, 0xff]);
    assert_eq!(count_counter_gaps(&buf, 0), (0, 2));
    assert_eq!(count_counter_gaps(&[], 41), (0, 41));
}
