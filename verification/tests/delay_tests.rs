use chorus::delay::DelayLine;
use chorus::SCALE;

#[test]
fn new_line_is_zeroed() {
    let line = DelayLine::new(8);
    assert_eq!(line.capacity(), 8);
    for i in 0..8 {
        assert_eq!(line.sample_at(i), 0);
    }
}

#[test]
fn write_hits_only_the_cursor_slot() {
    let mut line = DelayLine::new(4);
    line.write(123_456);
    assert_eq!(line.sample_at(0), 123_456);
    assert_eq!(line.sample_at(1), 0);
    line.advance();
    line.write(-7);
    assert_eq!(line.sample_at(0), 123_456);
    assert_eq!(line.sample_at(1), -7);
}

#[test]
fn advance_wraps_at_capacity() {
    let mut line = DelayLine::new(3);
    line.write(1);
    line.advance();
    line.write(2);
    line.advance();
    line.write(3);
    line.advance();
    // The cursor is back on slot 0: the next write overwrites it.
    line.write(9);
    assert_eq!(line.sample_at(0), 9);
    assert_eq!(line.sample_at(1), 2);
    assert_eq!(line.sample_at(2), 3);
}

#[test]
fn integer_offset_reads_one_slot_exactly() {
    let mut line = DelayLine::new(4);
    for v in [10, 20, 30, 40] {
        line.write(v);
        line.advance();
    }
    // Cursor back on slot 0; an offset of k whole slots reads slot (0 - k) mod 4.
    assert_eq!(line.read_interpolated(1 * SCALE), 40);
    assert_eq!(line.read_interpolated(2 * SCALE), 30);
    assert_eq!(line.read_interpolated(3 * SCALE), 20);
    assert_eq!(line.read_interpolated(4 * SCALE), 10);
}

#[test]
fn fractional_offset_blends_adjacent_slots() {
    let mut line = DelayLine::new(4);
    for v in [1_000_000, -500_000, 250_000, 750_000] {
        line.write(v);
        line.advance();
    }
    // Cursor on slot 0: read position 2.5 blends slots 2 and 3 evenly.
    assert_eq!(line.read_interpolated(1_500_000), 500_000);
}

#[test]
fn fractional_offset_wraps_to_slot_zero() {
    let mut line = DelayLine::new(4);
    for v in [1_000_000, -500_000, 250_000, 750_000] {
        line.write(v);
        line.advance();
    }
    // Read position 3.5 blends slot 3 with slot 0 across the wrap.
    assert_eq!(line.read_interpolated(500_000), 875_000);
}

#[test]
fn reset_zeroes_samples_and_cursor() {
    let mut line = DelayLine::new(4);
    for v in [5, 6, 7] {
        line.write(v);
        line.advance();
    }
    line.reset();
    assert_eq!(line.capacity(), 4);
    for i in 0..4 {
        assert_eq!(line.sample_at(i), 0);
    }
    line.write(11);
    assert_eq!(line.sample_at(0), 11);
}
