use vstd::prelude::*;

verus! {

/// Outcome of fitting a field's D'R/D'B line alternation.
///
/// `matching` of the `lines` fitted lines agree with the fitted alternation, so
/// the fit's confidence is the ratio `matching / lines`.
#[derive(Clone, Copy, PartialEq, Eq, Debug)]
pub struct LineFit {
    /// D'R lines sit on even line numbers.
    pub dr_on_even: bool,
    /// Number of lines whose measured identity matches the fitted alternation.
    pub matching: usize,
    /// Number of lines that took part in the fit.
    pub lines: usize,
}

impl LineFit {
    /// The fit's confidence reaches the 7/10 a field needs before it may teach
    /// the parity flywheel.
    pub open spec fn spec_confident(self) -> bool {
        self.lines > 0 && 10 * self.matching >= 7 * self.lines
    }

    /// Whether the fit is confident enough to teach the parity flywheel
    /// (`matching / lines >= 0.7`).
    pub fn is_confident(&self) -> (confident: bool)
        ensures
            confident == self.spec_confident(),
    {
        let matching: u128 = self.matching as u128;
        let lines: u128 = self.lines as u128;
        lines > 0 && 10 * matching >= 7 * lines
    }
}

} // verus!

verus! {

/// Lines a field needs before its alternation is fitted.
pub const SECAM_IDENT_MIN_LINES: usize = 32;

/// Pixels skipped after the back porch before the measurement window opens.
pub const IDENT_ACTIVE_LEAD_PX: usize = 30;

/// Pixels left out before the end of each line.
pub const IDENT_ACTIVE_TAIL_PX: usize = 40;

/// Per-line measurement window of the line-alternation fit, in pixels from the
/// start of each line.
#[derive(Clone, Copy, PartialEq, Eq, Debug)]
pub struct IdentWindow {
    pub active_start: usize,
    pub active_end: usize,
}

/// The field is large enough, and its lines wide enough, for the line
/// alternation to be fitted.
pub open spec fn spec_ident_window_fits(
    inst_freq_len: int,
    linesout: int,
    outwidth: int,
    first_line: int,
    porch_end_px: int,
) -> bool {
    &&& linesout >= first_line
    &&& linesout - first_line >= SECAM_IDENT_MIN_LINES
    &&& outwidth >= IDENT_ACTIVE_TAIL_PX
    &&& porch_end_px + IDENT_ACTIVE_LEAD_PX < outwidth - IDENT_ACTIVE_TAIL_PX
    &&& linesout * outwidth <= inst_freq_len
}

/// The window computation does not overflow where the field is examined.
pub open spec fn spec_ident_window_computable(
    linesout: int,
    outwidth: int,
    first_line: int,
    porch_end_px: int,
) -> bool {
    (linesout >= first_line && linesout - first_line >= SECAM_IDENT_MIN_LINES) ==> {
        &&& porch_end_px + IDENT_ACTIVE_LEAD_PX <= usize::MAX
        &&& (outwidth >= IDENT_ACTIVE_TAIL_PX && porch_end_px + IDENT_ACTIVE_LEAD_PX < outwidth
            - IDENT_ACTIVE_TAIL_PX) ==> linesout * outwidth <= usize::MAX
    }
}

/// Measurement window of the line-alternation fit over a field of `linesout`
/// lines of `outwidth` samples, from `first_line` on, or `None` where the field
/// has too few lines or too narrow lines to fit.
pub fn secam_ident_window(
    inst_freq_len: usize,
    linesout: usize,
    outwidth: usize,
    first_line: usize,
    porch_end_px: usize,
) -> (window: Option<IdentWindow>)
    requires
        spec_ident_window_computable(
            linesout as int,
            outwidth as int,
            first_line as int,
            porch_end_px as int,
        ),
    ensures
        window is Some <==> spec_ident_window_fits(
            inst_freq_len as int,
            linesout as int,
            outwidth as int,
            first_line as int,
            porch_end_px as int,
        ),
        window matches Some(w) ==> {
            &&& w.active_start == porch_end_px + IDENT_ACTIVE_LEAD_PX
            &&& w.active_end == outwidth - IDENT_ACTIVE_TAIL_PX
            &&& w.active_start < w.active_end <= outwidth
        },
{
    let n_lines = linesout.checked_sub(first_line)?;
    if n_lines < SECAM_IDENT_MIN_LINES {
        return None;
    }
    let active_start = porch_end_px + IDENT_ACTIVE_LEAD_PX;
    let active_end = outwidth.checked_sub(IDENT_ACTIVE_TAIL_PX)?;
    if active_start >= active_end || linesout * outwidth > inst_freq_len {
        return None;
    }
    Some(IdentWindow { active_start, active_end })
}

/// Every measured line's window lies inside the field buffer.
pub proof fn lemma_ident_window_in_bounds(
    inst_freq_len: int,
    linesout: int,
    outwidth: int,
    first_line: int,
    porch_end_px: int,
    line: int,
)
    requires
        spec_ident_window_fits(inst_freq_len, linesout, outwidth, first_line, porch_end_px),
        0 <= first_line <= line < linesout,
        0 <= porch_end_px,
    ensures
        0 <= line * outwidth + porch_end_px + IDENT_ACTIVE_LEAD_PX,
        line * outwidth + outwidth - IDENT_ACTIVE_TAIL_PX <= inst_freq_len,
{
    assert(0 <= line * outwidth) by (nonlinear_arith)
        requires
            0 <= line,
            0 <= outwidth,
    ;
    assert((line + 1) * outwidth <= linesout * outwidth) by (nonlinear_arith)
        requires
            line + 1 <= linesout,
            0 <= outwidth,
    ;
    assert((line + 1) * outwidth == line * outwidth + outwidth) by (nonlinear_arith);
}

/// Whether line `line` is a D'R line when D'R sits on even lines iff
/// `dr_on_even`.
pub open spec fn spec_line_is_dr(line: int, dr_on_even: bool) -> bool {
    (line % 2 == 0) == dr_on_even
}

/// Number of the first `k` identities in `line_is_dr` (for lines `first_line`,
/// `first_line + 1`, ...) that fit the alternation with D'R on even lines.
pub open spec fn spec_even_dr_count(first_line: int, line_is_dr: Seq<bool>, k: int) -> nat
    decreases k,
{
    if k <= 0 {
        0
    } else {
        spec_even_dr_count(first_line, line_is_dr, k - 1) + if line_is_dr[k - 1]
            == spec_line_is_dr(first_line + k - 1, true) {
            1nat
        } else {
            0nat
        }
    }
}

/// The better of the two alternation parities for the measured identities.
pub open spec fn spec_fit_of_counts(even_dr: nat, lines: nat) -> (bool, nat) {
    (
        2 * even_dr >= lines,
        if even_dr >= lines - even_dr {
            even_dr
        } else {
            (lines - even_dr) as nat
        },
    )
}

/// Fit the D'R/D'B line alternation to the measured identities of lines
/// `first_line ..`, one per line (`true` for a D'R line): the parity that more
/// lines agree with, and how many agree.
pub fn fit_line_alternation(first_line: usize, line_is_dr: &[bool]) -> (fit: LineFit)
    requires
        first_line + line_is_dr@.len() <= usize::MAX,
    ensures
        fit.lines == line_is_dr@.len(),
        ({
            let even_dr = spec_even_dr_count(
                first_line as int,
                line_is_dr@,
                line_is_dr@.len() as int,
            );
            (fit.dr_on_even, fit.matching as nat) == spec_fit_of_counts(
                even_dr,
                line_is_dr@.len(),
            )
        }),
{
    let n_lines = line_is_dr.len();
    let mut even_is_dr: usize = 0;
    let mut k: usize = 0;
    while k < n_lines
        invariant
            n_lines == line_is_dr@.len(),
            first_line + n_lines <= usize::MAX,
            k <= n_lines,
            even_is_dr == spec_even_dr_count(first_line as int, line_is_dr@, k as int),
            even_is_dr <= k,
        decreases n_lines - k,
    {
        let line_index = first_line + k;
        if line_is_dr[k] == (line_index % 2 == 0) {
            even_is_dr += 1;
        }
        k += 1;
    }
    let odd_is_dr = n_lines - even_is_dr;
    let matching = if even_is_dr >= odd_is_dr {
        even_is_dr
    } else {
        odd_is_dr
    };
    LineFit { dr_on_even: even_is_dr >= odd_is_dr, matching, lines: n_lines }
}

} // verus!

verus! {

/// The count of even-D'R identities never exceeds the lines counted.
proof fn lemma_even_dr_count_bounded(first_line: int, line_is_dr: Seq<bool>, k: int)
    requires
        0 <= k,
    ensures
        spec_even_dr_count(first_line, line_is_dr, k) <= k,
    decreases k,
{
    if k > 0 {
        lemma_even_dr_count_bounded(first_line, line_is_dr, k - 1);
    }
}

/// The fitted parity is the majority: at least half of the lines, and never
/// more than all of them, agree with it, so a fit's confidence lies between
/// one half and one.
pub proof fn lemma_fit_is_the_majority(first_line: int, line_is_dr: Seq<bool>)
    ensures
        ({
            let even_dr = spec_even_dr_count(first_line, line_is_dr, line_is_dr.len() as int);
            let fit = spec_fit_of_counts(even_dr, line_is_dr.len());
            &&& 2 * fit.1 >= line_is_dr.len()
            &&& fit.1 <= line_is_dr.len()
            &&& fit.0 <==> fit.1 == even_dr
        }),
{
    lemma_even_dr_count_bounded(first_line, line_is_dr, line_is_dr.len() as int);
}

/// Swapping every line's identity swaps the counts of the two parities.
proof fn lemma_even_dr_count_complement(first_line: int, line_is_dr: Seq<bool>, k: int)
    requires
        0 <= k <= line_is_dr.len(),
    ensures
        spec_even_dr_count(first_line, line_is_dr.map_values(|d: bool| !d), k) + spec_even_dr_count(
            first_line,
            line_is_dr,
            k,
        ) == k,
    decreases k,
{
    if k > 0 {
        lemma_even_dr_count_complement(first_line, line_is_dr, k - 1);
    }
}

/// Swapping the D'R/D'B assignment of every line flips the fitted parity
/// (unless the two parities tie) and keeps the number of agreeing lines, so
/// the confidence is unchanged.
pub proof fn lemma_swapped_identities_flip_the_fit(first_line: int, line_is_dr: Seq<bool>)
    ensures
        ({
            let swapped = line_is_dr.map_values(|d: bool| !d);
            let n = line_is_dr.len();
            let even_dr = spec_even_dr_count(first_line, line_is_dr, n as int);
            let fit = spec_fit_of_counts(even_dr, n);
            let swapped_fit = spec_fit_of_counts(
                spec_even_dr_count(first_line, swapped, n as int),
                swapped.len(),
            );
            &&& swapped_fit.1 == fit.1
            &&& 2 * even_dr != n ==> swapped_fit.0 == !fit.0
        }),
{
    lemma_even_dr_count_complement(first_line, line_is_dr, line_is_dr.len() as int);
    lemma_even_dr_count_bounded(first_line, line_is_dr, line_is_dr.len() as int);
}

/// Lines that all follow the alternation with D'R on even lines iff
/// `dr_on_even` count as matching the even parity exactly when `dr_on_even`.
proof fn lemma_even_dr_count_of_clean_alternation(
    first_line: int,
    line_is_dr: Seq<bool>,
    dr_on_even: bool,
    k: int,
)
    requires
        0 <= k <= line_is_dr.len(),
        forall|i: int|
            0 <= i < line_is_dr.len() ==> #[trigger] line_is_dr[i] == spec_line_is_dr(
                first_line + i,
                dr_on_even,
            ),
    ensures
        spec_even_dr_count(first_line, line_is_dr, k) == if dr_on_even {
            k
        } else {
            0
        },
    decreases k,
{
    if k > 0 {
        lemma_even_dr_count_of_clean_alternation(first_line, line_is_dr, dr_on_even, k - 1);
        assert(line_is_dr[k - 1] == spec_line_is_dr(first_line + k - 1, dr_on_even));
    }
}

/// A field whose lines alternate cleanly is fitted to its own parity with every
/// line agreeing, which is full confidence.
pub proof fn lemma_clean_alternation_fits_fully(
    first_line: int,
    line_is_dr: Seq<bool>,
    dr_on_even: bool,
)
    requires
        line_is_dr.len() > 0,
        forall|i: int|
            0 <= i < line_is_dr.len() ==> #[trigger] line_is_dr[i] == spec_line_is_dr(
                first_line + i,
                dr_on_even,
            ),
    ensures
        spec_fit_of_counts(
            spec_even_dr_count(first_line, line_is_dr, line_is_dr.len() as int),
            line_is_dr.len(),
        ) == (dr_on_even, line_is_dr.len()),
{
    lemma_even_dr_count_of_clean_alternation(
        first_line,
        line_is_dr,
        dr_on_even,
        line_is_dr.len() as int,
    );
}

} // verus!

verus! {

/// Line identity alternates strictly, line by line, for every line number:
/// neighbouring lines always carry opposite components, line 0 carries D'R
/// exactly when D'R sits on even lines, and the two parities disagree on
/// every line.
pub proof fn lemma_line_identity_alternates(line: int, dr_on_even: bool)
    ensures
        spec_line_is_dr(line + 1, dr_on_even) == !spec_line_is_dr(line, dr_on_even),
        spec_line_is_dr(line + 2, dr_on_even) == spec_line_is_dr(line, dr_on_even),
        spec_line_is_dr(0, dr_on_even) == dr_on_even,
        spec_line_is_dr(line, !dr_on_even) == !spec_line_is_dr(line, dr_on_even),
        spec_line_is_dr(line, true) <==> line % 2 == 0,
{
}

/// Line identity along any run of lines: line `first + i` carries the same
/// component as `first` exactly when `i` is even.
pub proof fn lemma_line_identity_along_a_run(first: int, i: nat, dr_on_even: bool)
    ensures
        spec_line_is_dr(first + i, dr_on_even) == (spec_line_is_dr(first, dr_on_even) == (i % 2
            == 0)),
    decreases i,
{
    if i > 0 {
        lemma_line_identity_along_a_run(first, (i - 1) as nat, dr_on_even);
        lemma_line_identity_alternates(first + i - 1, dr_on_even);
    }
}

/// The confidence gate is the ratio `matching / lines >= 7 / 10`, for any
/// counts.
pub proof fn lemma_confidence_is_the_ratio(fit: LineFit)
    ensures
        fit.spec_confident() <==> (fit.lines > 0 && fit.matching * 10 >= fit.lines * 7),
        fit.spec_confident() ==> fit.matching > 0,
        fit.matching >= fit.lines > 0 ==> fit.spec_confident(),
        2 * fit.matching <= fit.lines ==> !fit.spec_confident(),
{
}

/// Confidence depends only on the ratio: scaling both counts by the same
/// factor never changes it, and more agreeing lines of the same field never
/// lose it.
pub proof fn lemma_confidence_depends_on_the_ratio_only(a: LineFit, b: LineFit, k: int)
    requires
        k > 0,
        b.matching == k * a.matching,
        b.lines == k * a.lines,
    ensures
        a.spec_confident() == b.spec_confident(),
{
    assert(b.matching * 10 == k * (a.matching * 10)) by (nonlinear_arith)
        requires
            b.matching == k * a.matching,
    ;
    assert(b.lines * 7 == k * (a.lines * 7)) by (nonlinear_arith)
        requires
            b.lines == k * a.lines,
    ;
    assert(a.matching * 10 >= a.lines * 7 <==> k * (a.matching * 10) >= k * (a.lines * 7))
        by (nonlinear_arith)
        requires
            k > 0,
    ;
    assert(a.lines > 0 <==> k * a.lines > 0) by (nonlinear_arith)
        requires
            k > 0,
    ;
}

/// More agreeing lines out of the same number never lose confidence.
pub proof fn lemma_confidence_grows_with_agreement(a: LineFit, b: LineFit)
    requires
        a.lines == b.lines,
        a.matching <= b.matching,
        a.spec_confident(),
    ensures
        b.spec_confident(),
{
}

/// The window exists whenever the field is large enough: enough lines past
/// `first_line` (with no upper bound on their number), lines wide enough for
/// the lead and tail margins, and a buffer holding the whole field.
pub proof fn lemma_ident_window_exists_for_large_fields(
    inst_freq_len: int,
    linesout: int,
    outwidth: int,
    first_line: int,
    porch_end_px: int,
)
    requires
        0 <= porch_end_px,
        linesout >= first_line + SECAM_IDENT_MIN_LINES,
        porch_end_px + IDENT_ACTIVE_LEAD_PX + IDENT_ACTIVE_TAIL_PX < outwidth,
        linesout * outwidth <= inst_freq_len,
    ensures
        spec_ident_window_fits(inst_freq_len, linesout, outwidth, first_line, porch_end_px),
{
}

/// A field too short to fit is never fitted: fewer than
/// `SECAM_IDENT_MIN_LINES` lines past `first_line`, or lines too narrow for the
/// margins, or a buffer shorter than the field.
pub proof fn lemma_ident_window_needs_the_whole_field(
    inst_freq_len: int,
    linesout: int,
    outwidth: int,
    first_line: int,
    porch_end_px: int,
)
    requires
        spec_ident_window_fits(inst_freq_len, linesout, outwidth, first_line, porch_end_px),
    ensures
        linesout >= first_line + SECAM_IDENT_MIN_LINES,
        porch_end_px + IDENT_ACTIVE_LEAD_PX + IDENT_ACTIVE_TAIL_PX < outwidth,
        linesout * outwidth <= inst_freq_len,
{
}

/// Adding lines to a field that can be fitted (in a buffer that holds them)
/// keeps it fittable.
pub proof fn lemma_ident_window_survives_more_lines(
    inst_freq_len: int,
    linesout: int,
    more_lines: int,
    outwidth: int,
    first_line: int,
    porch_end_px: int,
)
    requires
        spec_ident_window_fits(inst_freq_len, linesout, outwidth, first_line, porch_end_px),
        more_lines >= linesout,
        more_lines * outwidth <= inst_freq_len,
    ensures
        spec_ident_window_fits(inst_freq_len, more_lines, outwidth, first_line, porch_end_px),
{
}

} // verus!
