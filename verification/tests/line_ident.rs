use tape_decode::field::STARTING_LINE;
use tape_decode::line_ident::fit_line_alternation;
use tape_decode::line_ident::secam_ident_window;
use tape_decode::line_ident::IdentWindow;
use tape_decode::line_ident::LineFit;

/// Identities of lines `first_line..linesout` when D'R sits on even lines iff
/// `dr_on_even`.
fn clean_identities(first_line: usize, linesout: usize, dr_on_even: bool) -> Vec<bool> {
    (first_line..linesout).map(|line| (line % 2 == 0) == dr_on_even).collect()
}

#[test]
fn line_alternation_fit_reads_the_carrier_pair() {
    let outwidth = 1135usize;
    let linesout = 120usize;
    let first_line = 16usize;
    let porch_end_px = 186usize;
    let window = secam_ident_window(linesout * outwidth, linesout, outwidth, first_line, porch_end_px)
        .expect("fit");
    assert_eq!(window, IdentWindow { active_start: 216, active_end: 1095 });

    // D'R on even lines.
    let fit = fit_line_alternation(first_line, &clean_identities(first_line, linesout, true));
    assert!(fit.dr_on_even);
    assert_eq!(fit, LineFit { dr_on_even: true, matching: 104, lines: 104 });
    assert!(fit.is_confident());

    // Swapping the assignment flips the fit, still at full confidence.
    let fit = fit_line_alternation(first_line, &clean_identities(first_line, linesout, false));
    assert!(!fit.dr_on_even);
    assert_eq!(fit.matching, fit.lines);
}

#[test]
fn line_alternation_fit_needs_enough_lines() {
    let outwidth = 1135usize;
    assert!(secam_ident_window(40 * outwidth, 40, outwidth, 16, 186).is_none());
}

#[test]
fn ident_window_rejects_short_buffers_and_narrow_lines() {
    // Exactly the minimum line count is enough.
    assert!(secam_ident_window(48 * 1135, 48, 1135, STARTING_LINE, 186).is_some());
    // One sample short of the field.
    assert!(secam_ident_window(48 * 1135 - 1, 48, 1135, STARTING_LINE, 186).is_none());
    // first_line past linesout.
    assert!(secam_ident_window(10 * 1135, 10, 1135, 16, 186).is_none());
    // Lines narrower than the tail margin.
    assert!(secam_ident_window(100 * 39, 100, 39, 16, 0).is_none());
    // Porch end too close to the line end.
    assert!(secam_ident_window(100 * 300, 100, 300, 16, 230).is_none());
    assert_eq!(
        secam_ident_window(100 * 300, 100, 300, 16, 229),
        Some(IdentWindow { active_start: 259, active_end: 260 })
    );
}

#[test]
fn majority_wins_a_noisy_fit() {
    // D'R on odd lines from line 16 on, with every fifth line misread.
    let mut identities = clean_identities(16, 116, false);
    for (k, identity) in identities.iter_mut().enumerate() {
        if k % 5 == 0 {
            *identity = !*identity;
        }
    }
    let fit = fit_line_alternation(16, &identities);
    assert_eq!(fit, LineFit { dr_on_even: false, matching: 80, lines: 100 });
    assert!(fit.is_confident());

    // Swapped identities: same agreement, opposite parity.
    let swapped: Vec<bool> = identities.iter().map(|d| !d).collect();
    assert_eq!(
        fit_line_alternation(16, &swapped),
        LineFit { dr_on_even: true, matching: 80, lines: 100 }
    );
}

#[test]
fn tie_fits_dr_on_even_at_half_confidence() {
    let identities = vec![true; 4];
    // Lines 16..20: two even lines agree with D'R-on-even, two odd lines don't.
    let fit = fit_line_alternation(16, &identities);
    assert_eq!(fit, LineFit { dr_on_even: true, matching: 2, lines: 4 });
    assert!(!fit.is_confident());
    assert_eq!(fit_line_alternation(16, &[]), LineFit { dr_on_even: true, matching: 0, lines: 0 });
}
