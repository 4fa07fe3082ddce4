use vstd::prelude::*;

use crate::line_ident::spec_line_is_dr;

verus! {

/// Raised-cosine fade-in length at the outgoing end of a splice.
pub const FADE_LEN: usize = 8;

/// Raised-cosine frequency ramp length at either end of the synthesis.
pub const RAMP_LEN: usize = 20;

/// Length of each carrier measurement window next to a splice.
pub const MEAS_LEN: usize = 32;

/// Start of the rest-to-rest frequency step, in pixels from the next line's
/// start (over the sync tip).
pub const STEP_START_PX: usize = 8;

/// End of the rest-to-rest frequency step, in pixels from the next line's start.
pub const STEP_END_PX: usize = 40;

/// End of the phase-closing frequency bump, in pixels from the next line's
/// start.
pub const BUMP_END_PX: usize = 88;

/// Raised-cosine taper at either end of the bump.
pub const BUMP_TAPER: usize = 12;

/// Room the synthesis keeps after the step for the phase-closure hold.
pub const HOLD_ROOM: usize = 96;

/// How far before the next line's start the bump may open.
pub const BUMP_LEAD_PX: usize = 16;

/// Clearance between the bump and either frequency ramp.
pub const BUMP_RAMP_GAP: usize = 4;

/// Shortest rest-frequency hold after the bump.
pub const MIN_HOLD_LEN: usize = 24;

/// Whether line `linenumber` carries D'R (red) rather than D'B (blue).
pub fn line_is_dr(linenumber: usize, dr_on_even: bool) -> (is_dr: bool)
    ensures
        is_dr == spec_line_is_dr(linenumber as int, dr_on_even),
{
    (linenumber % 2 == 0) == dr_on_even
}

/// Lines `[from, to)` of a field of `linesout` lines whose blanking interval is
/// resynthesized, starting at `first_line`: every line but the last, since
/// the synthesis runs into the next line's back porch.
pub fn blanking_lines(first_line: usize, linesout: usize) -> (lines: (usize, usize))
    ensures
        lines.0 == first_line,
        lines.1 == if linesout >= 1 {
            linesout - 1
        } else {
            0
        },
{
    (first_line, linesout.saturating_sub(1))
}

/// Sample range `[start, start + length)` of a narrowband carrier measurement,
/// split into two halves of `half` samples for the frequency estimate.
///
/// `None` where the window is empty, runs past `len`, or is too short to split.
pub fn under_carrier_window(len: usize, start: usize, length: usize) -> (half: Option<usize>)
    requires
        length > 0 ==> start + length <= usize::MAX,
    ensures
        half is Some <==> (length >= 2 && start + length <= len),
        half matches Some(h) ==> h == length / 2 && 1 <= h && h <= length - h,
{
    if length == 0 || start + length > len {
        return None;
    }
    let half = length / 2;
    if half == 0 {
        return None;
    }
    Some(half)
}

/// Geometry of one line's blanking-interval synthesis, in samples.
///
/// The synthesis covers `[start - FADE_LEN, end)`: from just before the
/// outgoing line's blanking start to the end of the next line's back porch.
/// Offsets `next_line_p`, `step0`, `step1`, `b0`, `b1` and `hold_end` count from
/// `start`.
#[derive(Clone, Copy, PartialEq, Eq, Debug)]
pub struct BlankingSplice {
    pub start: usize,
    pub end: usize,
    pub span: usize,
    /// Offset of the next line's first sample.
    pub next_line_p: usize,
    /// Rest-to-rest frequency step `[step0, step1)`.
    pub step0: usize,
    pub step1: usize,
    /// Phase-closing frequency bump `[b0, b1)`.
    pub b0: usize,
    pub b1: usize,
    /// End of the rest-frequency hold that absorbs any spill of the bump.
    pub hold_end: usize,
}

/// First sample of line `linenumber`'s blanking interval.
pub open spec fn spec_splice_start(linenumber: int, outwidth: int, blank_start_px: int) -> int {
    linenumber * outwidth + blank_start_px
}

/// End of the next line's back porch.
pub open spec fn spec_splice_end(linenumber: int, outwidth: int, porch_end_px: int) -> int {
    (linenumber + 1) * outwidth + porch_end_px
}

/// Offset of the rest-to-rest step for a span of `span` samples whose next line
/// starts at offset `next_line_p`.
pub open spec fn spec_step0(span: int, next_line_p: int) -> int {
    let early = if next_line_p + STEP_START_PX >= RAMP_LEN {
        next_line_p + STEP_START_PX
    } else {
        RAMP_LEN as int
    };
    if early <= span - RAMP_LEN - HOLD_ROOM {
        early
    } else {
        span - RAMP_LEN - HOLD_ROOM
    }
}

/// Offset where the phase-closing bump opens.
pub open spec fn spec_bump_start(next_line_p: int) -> int {
    let lead = if next_line_p >= BUMP_LEAD_PX {
        next_line_p - BUMP_LEAD_PX
    } else {
        0
    };
    if lead >= RAMP_LEN + BUMP_RAMP_GAP {
        lead
    } else {
        RAMP_LEN + BUMP_RAMP_GAP
    }
}

/// Offset where the phase-closing bump closes.
pub open spec fn spec_bump_end(span: int, next_line_p: int) -> int {
    if next_line_p + BUMP_END_PX <= span - RAMP_LEN - BUMP_RAMP_GAP {
        next_line_p + BUMP_END_PX
    } else {
        span - RAMP_LEN - BUMP_RAMP_GAP
    }
}

/// Whether line `linenumber`'s blanking interval can be resynthesized in a
/// buffer of `len` samples: the span is nonempty, both measurement windows fit,
/// there is room for both ramps, the step and the hold, and the bump and the
/// hold after it are long enough.
pub open spec fn spec_splice_fits(
    len: int,
    linenumber: int,
    outwidth: int,
    blank_start_px: int,
    porch_end_px: int,
) -> bool {
    let start = spec_splice_start(linenumber, outwidth, blank_start_px);
    let end = spec_splice_end(linenumber, outwidth, porch_end_px);
    let span = end - start;
    let next_line_p = span - porch_end_px;
    let step0 = spec_step0(span, next_line_p);
    let b0 = spec_bump_start(next_line_p);
    let b1 = spec_bump_end(span, next_line_p);
    let hold_end = span - RAMP_LEN;
    &&& end > start
    &&& start >= 2 * MEAS_LEN + FADE_LEN
    &&& end + 2 * MEAS_LEN <= len
    &&& span >= 2 * RAMP_LEN + HOLD_ROOM
    &&& porch_end_px < span
    &&& step0 + (STEP_END_PX - STEP_START_PX) <= span
    &&& b1 > b0
    &&& b1 - b0 >= 2 * BUMP_TAPER + 8
    &&& b1 < hold_end
    &&& hold_end - b1 >= MIN_HOLD_LEN
}

/// The splice geometry arithmetic does not overflow.
pub open spec fn spec_splice_computable(
    linenumber: int,
    outwidth: int,
    blank_start_px: int,
    porch_end_px: int,
) -> bool {
    let start = spec_splice_start(linenumber, outwidth, blank_start_px);
    let end = spec_splice_end(linenumber, outwidth, porch_end_px);
    &&& linenumber + 1 <= usize::MAX
    &&& start <= usize::MAX
    &&& end <= usize::MAX
    &&& end > start ==> end + 2 * MEAS_LEN <= usize::MAX
}

/// Geometry of the blanking-interval synthesis for line `linenumber` of a
/// field of lines `outwidth` samples wide, held in a buffer of `len` samples,
/// or `None` where the interval is skipped.
pub fn blanking_splice(
    len: usize,
    linenumber: usize,
    outwidth: usize,
    blank_start_px: usize,
    porch_end_px: usize,
) -> (splice: Option<BlankingSplice>)
    requires
        spec_splice_computable(
            linenumber as int,
            outwidth as int,
            blank_start_px as int,
            porch_end_px as int,
        ),
    ensures
        splice is Some <==> spec_splice_fits(
            len as int,
            linenumber as int,
            outwidth as int,
            blank_start_px as int,
            porch_end_px as int,
        ),
        splice matches Some(s) ==> {
            &&& s.start == spec_splice_start(
                linenumber as int,
                outwidth as int,
                blank_start_px as int,
            )
            &&& s.end == spec_splice_end(linenumber as int, outwidth as int, porch_end_px as int)
            &&& s.span == s.end - s.start
            &&& s.next_line_p == s.span - porch_end_px
            &&& s.step0 == spec_step0(s.span as int, s.next_line_p as int)
            &&& s.step1 == s.step0 + (STEP_END_PX - STEP_START_PX)
            &&& s.b0 == spec_bump_start(s.next_line_p as int)
            &&& s.b1 == spec_bump_end(s.span as int, s.next_line_p as int)
            &&& s.hold_end == s.span - RAMP_LEN
        },
        splice matches Some(s) ==> {
            // Layout inside the buffer and the synthesis profile.
            &&& 2 * MEAS_LEN + FADE_LEN <= s.start
            &&& s.end + 2 * MEAS_LEN <= len
            &&& RAMP_LEN <= s.step0
            &&& s.step1 <= s.span
            &&& RAMP_LEN + BUMP_RAMP_GAP <= s.b0
            &&& s.b0 + 2 * BUMP_TAPER + 8 <= s.b1
            &&& s.b1 + MIN_HOLD_LEN <= s.hold_end
            &&& s.hold_end + RAMP_LEN == s.span
        },
{
    let start = linenumber * outwidth + blank_start_px;
    assert((linenumber + 1) * outwidth == linenumber * outwidth + outwidth) by (nonlinear_arith);
    let end = (linenumber + 1) * outwidth + porch_end_px;
    if end <= start {
        return None;
    }
    let span = end - start;
    if start < 2 * MEAS_LEN + FADE_LEN || end + 2 * MEAS_LEN > len {
        return None;
    }
    if span < 2 * RAMP_LEN + HOLD_ROOM || porch_end_px >= span {
        return None;
    }
    let next_line_p = span - porch_end_px;
    let step_len = STEP_END_PX - STEP_START_PX;
    let early = if next_line_p + STEP_START_PX >= RAMP_LEN {
        next_line_p + STEP_START_PX
    } else {
        RAMP_LEN
    };
    let step0 = if early <= span - RAMP_LEN - HOLD_ROOM {
        early
    } else {
        span - RAMP_LEN - HOLD_ROOM
    };
    let step1 = step0 + step_len;
    if step1 > span {
        return None;
    }
    let lead = next_line_p.saturating_sub(BUMP_LEAD_PX);
    let b0 = if lead >= RAMP_LEN + BUMP_RAMP_GAP {
        lead
    } else {
        RAMP_LEN + BUMP_RAMP_GAP
    };
    let b1 = if next_line_p + BUMP_END_PX <= span - RAMP_LEN - BUMP_RAMP_GAP {
        next_line_p + BUMP_END_PX
    } else {
        span - RAMP_LEN - BUMP_RAMP_GAP
    };
    let hold_end = span - RAMP_LEN;
    if b1 <= b0 || b1 - b0 < 2 * BUMP_TAPER + 8 || b1 >= hold_end {
        return None;
    }
    let hold_len = hold_end - b1;
    if hold_len < MIN_HOLD_LEN {
        return None;
    }
    Some(BlankingSplice { start, end, span, next_line_p, step0, step1, b0, b1, hold_end })
}

/// The synthesis of line `line`'s blanking interval, which writes
/// `[start - FADE_LEN, end)`, never touches the active video of any line `m`,
/// `[m * outwidth + porch_end_px, m * outwidth + blank_start_px - FADE_LEN)`.
pub proof fn lemma_splice_spares_active_video(
    line: int,
    m: int,
    outwidth: int,
    blank_start_px: int,
    porch_end_px: int,
    p: int,
)
    requires
        0 <= outwidth,
        m * outwidth + porch_end_px <= p < m * outwidth + blank_start_px - FADE_LEN,
    ensures
        !(spec_splice_start(line, outwidth, blank_start_px) - FADE_LEN <= p < spec_splice_end(
            line,
            outwidth,
            porch_end_px,
        )),
{
    if m <= line {
        assert(m * outwidth <= line * outwidth) by (nonlinear_arith)
            requires
                m <= line,
                0 <= outwidth,
        ;
    } else {
        assert((line + 1) * outwidth <= m * outwidth) by (nonlinear_arith)
            requires
                line + 1 <= m,
                0 <= outwidth,
        ;
    }
}

} // verus!

verus! {

/// A splice is skipped for lack of buffer room exactly when the incoming
/// measurement window runs past the buffer: it never fits when the window
/// overruns, and otherwise whether it fits does not depend on the buffer
/// length at all.
pub proof fn lemma_splice_room_is_the_incoming_window(
    len: int,
    other_len: int,
    linenumber: int,
    outwidth: int,
    blank_start_px: int,
    porch_end_px: int,
)
    ensures
        spec_splice_end(linenumber, outwidth, porch_end_px) + 2 * MEAS_LEN > len ==> !spec_splice_fits(
            len,
            linenumber,
            outwidth,
            blank_start_px,
            porch_end_px,
        ),
        (spec_splice_end(linenumber, outwidth, porch_end_px) + 2 * MEAS_LEN <= len
            && spec_splice_end(linenumber, outwidth, porch_end_px) + 2 * MEAS_LEN <= other_len)
            ==> spec_splice_fits(len, linenumber, outwidth, blank_start_px, porch_end_px)
            == spec_splice_fits(other_len, linenumber, outwidth, blank_start_px, porch_end_px),
{
}

/// A longer buffer never loses a splice.
pub proof fn lemma_splice_survives_a_longer_buffer(
    len: int,
    longer: int,
    linenumber: int,
    outwidth: int,
    blank_start_px: int,
    porch_end_px: int,
)
    requires
        len <= longer,
        spec_splice_fits(len, linenumber, outwidth, blank_start_px, porch_end_px),
    ensures
        spec_splice_fits(longer, linenumber, outwidth, blank_start_px, porch_end_px),
{
}

/// With the 625-line TBC geometry (1135-sample lines, blanking from pixel 1093,
/// back porch ending at pixel 186), every line of a field buffer of `linesout`
/// lines except the last is spliced, at the same offsets within its span.
pub proof fn lemma_every_line_of_a_625_line_field_is_spliced(linesout: int, line: int)
    requires
        0 <= line,
        line + 2 <= linesout,
    ensures
        spec_splice_fits(linesout * 1135, line, 1135, 1093, 186),
        spec_splice_end(line, 1135, 186) - spec_splice_start(line, 1135, 1093) == 228,
        spec_step0(228, 42) == 50,
        spec_bump_start(42) == 26,
        spec_bump_end(228, 42) == 130,
{
    assert((line + 1) * 1135 == line * 1135 + 1135) by (nonlinear_arith);
    assert((line + 2) * 1135 <= linesout * 1135) by (nonlinear_arith)
        requires
            line + 2 <= linesout,
    ;
    assert((line + 2) * 1135 == line * 1135 + 2270) by (nonlinear_arith);
    assert(line * 1135 >= 0) by (nonlinear_arith)
        requires
            0 <= line,
    ;
    let span = spec_splice_end(line, 1135, 186) - spec_splice_start(line, 1135, 1093);
    assert(span == 228);
    assert(spec_step0(228, 42) == 50);
    assert(spec_bump_start(42) == 26);
    assert(spec_bump_end(228, 42) == 130);
}

} // verus!

verus! {

/// Where the step and the bump sit within a span of `span` samples whose next
/// line starts at offset `next_line_p`: the step starts `STEP_START_PX` into
/// the next line (over the sync tip) unless that would crowd the outgoing
/// ramp or the hold, and always lies between them; the bump opens
/// `BUMP_LEAD_PX` before the next line but never over the outgoing ramp, and
/// closes `BUMP_END_PX` into it but never over the incoming ramp.
pub proof fn lemma_splice_profile_offsets(span: int, next_line_p: int)
    requires
        span >= 2 * RAMP_LEN + HOLD_ROOM,
        0 <= next_line_p,
    ensures
        RAMP_LEN <= spec_step0(span, next_line_p) <= span - RAMP_LEN - HOLD_ROOM,
        RAMP_LEN <= next_line_p + STEP_START_PX <= span - RAMP_LEN - HOLD_ROOM ==> spec_step0(
            span,
            next_line_p,
        ) == next_line_p + STEP_START_PX,
        spec_bump_start(next_line_p) >= RAMP_LEN + BUMP_RAMP_GAP,
        spec_bump_start(next_line_p) >= next_line_p - BUMP_LEAD_PX,
        spec_bump_start(next_line_p) == RAMP_LEN + BUMP_RAMP_GAP || spec_bump_start(next_line_p)
            == next_line_p - BUMP_LEAD_PX,
        spec_bump_end(span, next_line_p) <= next_line_p + BUMP_END_PX,
        spec_bump_end(span, next_line_p) <= span - RAMP_LEN - BUMP_RAMP_GAP,
        spec_bump_end(span, next_line_p) == next_line_p + BUMP_END_PX || spec_bump_end(
            span,
            next_line_p,
        ) == span - RAMP_LEN - BUMP_RAMP_GAP,
{
}

} // verus!
