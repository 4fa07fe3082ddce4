use vstd::prelude::*;

verus! {

/// Lines below this carry no usable chroma (vertical interval / head switch).
pub const STARTING_LINE: usize = 16;

/// Why a field cannot be restored.
#[derive(Clone, Copy, PartialEq, Eq, Debug)]
pub enum SecamFieldError {
    /// The field has no lines past the vertical interval, or the chroma buffer
    /// is shorter than `linesout` lines of `outwidth` samples.
    FieldTooSmall { linesout: usize, outwidth: usize, samples: usize },
}

/// Check that a field of `linesout` lines of `outwidth` samples, with `samples`
/// chroma samples, is large enough to restore.
pub fn check_secam_field(linesout: usize, outwidth: usize, samples: usize) -> (checked: Result<
    (),
    SecamFieldError,
>)
    requires
        linesout > STARTING_LINE ==> linesout * outwidth <= usize::MAX,
    ensures
        checked is Ok <==> (linesout > STARTING_LINE && samples >= linesout * outwidth),
        checked matches Err(e) ==> e == (SecamFieldError::FieldTooSmall {
            linesout,
            outwidth,
            samples,
        }),
{
    if linesout <= STARTING_LINE || samples < linesout * outwidth {
        return Err(SecamFieldError::FieldTooSmall { linesout, outwidth, samples });
    }
    Ok(())
}

/// Number of leading samples blanked as vertical interval: the lines before
/// `first_line`, capped at the buffer length `len`.
pub fn vertical_blank_len(first_line: usize, outwidth: usize, len: usize) -> (blanked: usize)
    requires
        first_line * outwidth <= usize::MAX,
    ensures
        blanked == if first_line * outwidth <= len {
            first_line * outwidth
        } else {
            len as int
        },
{
    let lines = first_line * outwidth;
    if lines <= len {
        lines
    } else {
        len
    }
}

/// Per-line sample range `[start, end)` of the burst/porch area used for the
/// porch level, or `None` where the area is empty, negative or wider than a
/// line.
pub fn porch_window(burst_start: isize, burst_end: isize, outwidth: usize) -> (window: Option<
    (usize, usize),
>)
    ensures
        window is Some <==> (0 <= burst_start && burst_start < burst_end && burst_end
            <= outwidth),
        window matches Some(w) ==> w.0 == burst_start && w.1 == burst_end,
{
    if burst_start >= 0 && burst_end > burst_start && (burst_end as usize) <= outwidth {
        Some((burst_start as usize, burst_end as usize))
    } else {
        None
    }
}

/// Output level of chroma that has already been offset by the signed sample
/// maximum and truncated to an integer: the low sixteen bits, so out-of-range
/// samples wrap.
pub fn chroma_code_u16(offset_sample: i64) -> (code: u16)
    ensures
        code as int == offset_sample as int % 65536,
{
    let code = offset_sample as u16;
    assert((offset_sample as u16) as int == offset_sample as int % 65536) by (bit_vector);
    code
}

} // verus!
