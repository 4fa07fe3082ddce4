use tape_decode::field::check_secam_field;
use tape_decode::field::chroma_code_u16;
use tape_decode::field::porch_window;
use tape_decode::field::vertical_blank_len;
use tape_decode::field::SecamFieldError;
use tape_decode::field::STARTING_LINE;

#[test]
fn field_must_pass_the_vertical_interval_and_fill_the_buffer() {
    assert_eq!(check_secam_field(313, 1135, 313 * 1135), Ok(()));
    assert_eq!(
        check_secam_field(313, 1135, 313 * 1135 - 1),
        Err(SecamFieldError::FieldTooSmall { linesout: 313, outwidth: 1135, samples: 313 * 1135 - 1 })
    );
    assert_eq!(
        check_secam_field(STARTING_LINE, 1135, 1 << 20),
        Err(SecamFieldError::FieldTooSmall { linesout: 16, outwidth: 1135, samples: 1 << 20 })
    );
    assert_eq!(check_secam_field(STARTING_LINE + 1, 1135, 17 * 1135), Ok(()));
}

#[test]
fn vertical_blank_is_capped_at_the_buffer() {
    assert_eq!(vertical_blank_len(16, 1135, 313 * 1135), 16 * 1135);
    assert_eq!(vertical_blank_len(16, 1135, 1000), 1000);
}

#[test]
fn porch_window_must_lie_inside_a_line() {
    assert_eq!(porch_window(100, 160, 1135), Some((100, 160)));
    assert_eq!(porch_window(-1, 160, 1135), None);
    assert_eq!(porch_window(160, 160, 1135), None);
    assert_eq!(porch_window(100, 1136, 1135), None);
    assert_eq!(porch_window(100, 1135, 1135), Some((100, 1135)));
}

#[test]
fn chroma_code_puts_zero_at_the_u16_midpoint_and_wraps() {
    assert_eq!(chroma_code_u16(32767), 32767);
    assert_eq!(chroma_code_u16(32768), 32768);
    assert_eq!(chroma_code_u16(65534), 65534);
    assert_eq!(chroma_code_u16(0), 0);
    assert_eq!(chroma_code_u16(65536), 0);
    assert_eq!(chroma_code_u16(-1), 65535);
    assert_eq!(chroma_code_u16(70000), 4464);
}
