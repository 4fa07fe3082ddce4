use tape_decode::blanking::blanking_splice;
use tape_decode::blanking::line_is_dr;
use tape_decode::blanking::under_carrier_window;
use tape_decode::blanking::BlankingSplice;
use tape_decode::blanking::FADE_LEN;

const TEST_OUTWIDTH: usize = 1135;
const TEST_PORCH_END_PX: usize = 186;
const TEST_BLANK_START_PX: usize = 1093;

#[test]
fn splice_geometry_for_a_625_line_field() {
    let len = 8 * TEST_OUTWIDTH;
    let splice =
        blanking_splice(len, 3, TEST_OUTWIDTH, TEST_BLANK_START_PX, TEST_PORCH_END_PX).expect("splice");
    assert_eq!(
        splice,
        BlankingSplice {
            start: 3 * 1135 + 1093,
            end: 4 * 1135 + 186,
            span: 228,
            next_line_p: 42,
            step0: 50,
            step1: 82,
            b0: 26,
            b1: 130,
            hold_end: 208,
        }
    );
}

#[test]
fn splice_skips_lines_without_measurement_room() {
    let len = 8 * TEST_OUTWIDTH;
    // The last full line has no room for the incoming measurement window.
    assert!(blanking_splice(len, 6, TEST_OUTWIDTH, TEST_BLANK_START_PX, TEST_PORCH_END_PX).is_some());
    assert!(blanking_splice(len, 7, TEST_OUTWIDTH, TEST_BLANK_START_PX, TEST_PORCH_END_PX).is_none());
    // Line 0 of a field whose blanking starts at sample 0 has no outgoing
    // measurement room.
    assert!(blanking_splice(len, 0, TEST_OUTWIDTH, 0, TEST_PORCH_END_PX).is_none());
    // An empty span.
    assert!(blanking_splice(len, 2, TEST_OUTWIDTH, TEST_OUTWIDTH + 200, TEST_PORCH_END_PX).is_none());
    // A span too short for both ramps and the hold.
    assert!(blanking_splice(len, 2, TEST_OUTWIDTH, 1100, 100).is_none());
}

#[test]
fn splice_writes_stay_out_of_active_video() {
    let len = 8 * TEST_OUTWIDTH;
    for line in 1..7 {
        let splice = blanking_splice(len, line, TEST_OUTWIDTH, TEST_BLANK_START_PX, TEST_PORCH_END_PX)
            .expect("splice");
        let write = splice.start - FADE_LEN..splice.end;
        for other in 0..8 {
            let base = other * TEST_OUTWIDTH;
            let active = base + TEST_PORCH_END_PX..base + TEST_BLANK_START_PX - FADE_LEN;
            assert!(write.end <= active.start || active.end <= write.start, "line {line} vs {other}");
        }
    }
}

#[test]
fn line_identity_follows_the_parity() {
    assert!(line_is_dr(16, true));
    assert!(!line_is_dr(17, true));
    assert!(!line_is_dr(16, false));
    assert!(line_is_dr(17, false));
}

#[test]
fn carrier_window_needs_two_samples_in_range() {
    assert_eq!(under_carrier_window(1048, 1000, 32), Some(16));
    assert_eq!(under_carrier_window(1031, 1000, 32), None);
    assert_eq!(under_carrier_window(1048, 1000, 0), None);
    assert_eq!(under_carrier_window(1048, 1000, 1), None);
    assert_eq!(under_carrier_window(1048, 1000, 3), Some(1));
}

#[test]
fn the_last_line_is_never_spliced() {
    assert_eq!(tape_decode::blanking::blanking_lines(1, 8), (1, 7));
    assert_eq!(tape_decode::blanking::blanking_lines(16, 313), (16, 312));
    assert_eq!(tape_decode::blanking::blanking_lines(16, 0), (16, 0));
    assert_eq!(tape_decode::blanking::blanking_lines(0, 1), (0, 0));
}
