use vstd::prelude::*;

use crate::line_ident::LineFit;

verus! {

/// Whether the four-field alternation cycle flips the parity of field `index`:
/// `((index + 1) >> 1) & 1`, the shift rounding toward minus infinity.
pub open spec fn spec_flip(index: int) -> bool {
    ((index + 1) / 2) % 2 == 1
}

/// Where a field's resolved parity came from.
#[derive(Clone, Copy, PartialEq, Eq, Debug, Structural)]
pub enum ParitySource {
    Measured,
    Flywheel,
    Unlocked,
}

impl ParitySource {
    /// The source's name as it appears in the decoder log.
    pub fn as_str(self) -> (name: &'static str)
        ensures
            name@ == match self {
                ParitySource::Measured => "measured"@,
                ParitySource::Flywheel => "flywheel"@,
                ParitySource::Unlocked => "unlocked"@,
            },
    {
        match self {
            ParitySource::Measured => "measured",
            ParitySource::Flywheel => "flywheel",
            ParitySource::Unlocked => "unlocked",
        }
    }
}

/// Abstract state of the parity flywheel.
pub struct FlywheelModel {
    /// Field counter; -1 before the first field.
    pub index: int,
    /// `readloc` of the most recent field.
    pub last_readloc: Option<u64>,
    /// Learned alternation phase: `dr_on_even(n) == base ^ flip(n)`.
    pub base: Option<bool>,
    /// Number of consecutive confident fields that agreed on `base`.
    pub agree: nat,
    /// Field counter of the last confident field.
    pub last_confirm: Option<int>,
}

/// A fit is present and confident enough to teach the flywheel.
pub open spec fn spec_confident_fit(fit: Option<LineFit>) -> bool {
    fit matches Some(f) && f.spec_confident()
}

impl FlywheelModel {
    /// The state of a flywheel that has seen no field.
    pub open spec fn initial() -> FlywheelModel {
        FlywheelModel {
            index: -1,
            last_readloc: None,
            base: None,
            agree: 0,
            last_confirm: None,
        }
    }

    /// Consistency of the flywheel state.
    pub open spec fn wf(self) -> bool {
        &&& self.index >= -1
        &&& (self.last_readloc is None <==> self.index == -1)
        &&& (self.base is Some <==> self.last_confirm is Some)
        &&& (self.base is Some <==> self.agree >= 1)
        &&& (self.last_confirm matches Some(c) ==> 0 <= c <= self.index)
    }

    /// Field counter after advancing to the field identified by `readloc`: a
    /// repeated `readloc` is the same field.
    pub open spec fn advanced_index(self, readloc: u64) -> int {
        if self.last_readloc == Some(readloc) {
            self.index
        } else {
            self.index + 1
        }
    }

    /// State after resolving the field identified by `readloc` with `fit`.
    pub open spec fn resolved(self, readloc: u64, fit: Option<LineFit>) -> FlywheelModel {
        let n = self.advanced_index(readloc);
        if spec_confident_fit(fit) {
            let base = fit->0.dr_on_even != spec_flip(n);
            FlywheelModel {
                index: n,
                last_readloc: Some(readloc),
                base: Some(base),
                agree: if self.base == Some(base) {
                    self.agree + 1
                } else {
                    1
                },
                last_confirm: Some(n),
            }
        } else {
            FlywheelModel { index: n, last_readloc: Some(readloc), ..self }
        }
    }

    /// Whether the learned lock predicts field `n`: it has enough agreeing
    /// fields and was confirmed recently enough.
    pub open spec fn locked_at(self, n: int) -> bool {
        &&& self.base is Some
        &&& self.last_confirm matches Some(c) && n - c <= SecamParityFlywheel::MAX_AGE
        &&& self.agree >= SecamParityFlywheel::MIN_LOCK
    }

    /// Parity and its source for the field identified by `readloc` with `fit`.
    pub open spec fn outcome(self, readloc: u64, fit: Option<LineFit>) -> (Option<bool>, ParitySource) {
        let n = self.advanced_index(readloc);
        if spec_confident_fit(fit) {
            (Some(fit->0.dr_on_even), ParitySource::Measured)
        } else if self.locked_at(n) {
            (Some(self.base->0 != spec_flip(n)), ParitySource::Flywheel)
        } else {
            (None, ParitySource::Unlocked)
        }
    }

    /// Resolving the field cannot overflow the flywheel's counters.
    pub open spec fn can_resolve(self, readloc: u64, fit: Option<LineFit>) -> bool {
        let n = self.advanced_index(readloc);
        &&& n < i64::MAX
        &&& (spec_confident_fit(fit) && self.base == Some(fit->0.dr_on_even != spec_flip(n)))
            ==> self.agree < usize::MAX
    }
}

/// Carries the fitted D'R/D'B alternation across fields.
///
/// Consecutive fields walk a strict four-field cycle,
/// `dr_on_even(n) = base ^ (((n + 1) >> 1) & 1)`, so one bit locks the parity of
/// every field. Confident fields teach `base`; other fields inherit the
/// prediction once `MIN_LOCK` confident fields agreed, until `MAX_AGE` fields
/// pass without confirmation. A confident contradiction restarts the count.
pub struct SecamParityFlywheel {
    index: i64,
    last_readloc: Option<u64>,
    base: Option<bool>,
    agree: usize,
    last_confirm: Option<i64>,
}

impl View for SecamParityFlywheel {
    type V = FlywheelModel;

    closed spec fn view(&self) -> FlywheelModel {
        FlywheelModel {
            index: self.index as int,
            last_readloc: self.last_readloc,
            base: self.base,
            agree: self.agree as nat,
            last_confirm: match self.last_confirm {
                Some(c) => Some(c as int),
                None => None,
            },
        }
    }
}

impl SecamParityFlywheel {
    /// Agreeing confident fields needed before the flywheel predicts.
    pub const MIN_LOCK: usize = 4;

    /// Fields a lock survives without a confident confirmation.
    pub const MAX_AGE: i64 = 32;

    /// A flywheel that has seen no field.
    pub fn new() -> (flywheel: Self)
        ensures
            flywheel@ == FlywheelModel::initial(),
            flywheel@.wf(),
    {
        Self { index: -1, last_readloc: None, base: None, agree: 0, last_confirm: None }
    }

    /// Whether the four-field cycle flips the parity of field `index`.
    pub fn flip(index: i64) -> (flipped: bool)
        requires
            index < i64::MAX,
        ensures
            flipped == spec_flip(index as int),
    {
        let next = index + 1;
        let half = next >> 1u32;
        assert((half & 1i64) == 1i64 <==> (next / 2) % 2 == 1) by (bit_vector)
            requires
                half == next >> 1u32,
        ;
        (half & 1) == 1
    }

    /// Whether resolving the field identified by `readloc` with `fit` keeps the
    /// field and agreement counters in range.
    pub fn can_resolve(&self, readloc: u64, fit: Option<LineFit>) -> (ok: bool)
        requires
            self@.wf(),
        ensures
            ok == self@.can_resolve(readloc, fit),
    {
        let advance = self.last_readloc != Some(readloc);
        if advance && self.index >= i64::MAX - 1 || !advance && self.index == i64::MAX {
            return false;
        }
        let n = if advance {
            self.index + 1
        } else {
            self.index
        };
        match fit {
            Some(f) => {
                if f.is_confident() && self.base == Some(f.dr_on_even != Self::flip(n)) {
                    self.agree < usize::MAX
                } else {
                    true
                }
            },
            None => true,
        }
    }

    /// Advance to the field identified by `readloc` and resolve its parity.
    pub fn resolve(&mut self, readloc: u64, fit: Option<LineFit>) -> (resolved: (
        Option<bool>,
        ParitySource,
    ))
        requires
            old(self)@.wf(),
            old(self)@.can_resolve(readloc, fit),
        ensures
            final(self)@ == old(self)@.resolved(readloc, fit),
            final(self)@.wf(),
            resolved == old(self)@.outcome(readloc, fit),
    {
        proof {
            lemma_resolve_keeps_wf(self@, readloc, fit);
        }
        if self.last_readloc != Some(readloc) {
            self.last_readloc = Some(readloc);
            self.index += 1;
        }
        let n = self.index;
        let flip = Self::flip(n);

        if let Some(f) = fit {
            if f.is_confident() {
                let base = f.dr_on_even != flip;
                if self.base == Some(base) {
                    self.agree += 1;
                } else {
                    self.base = Some(base);
                    self.agree = 1;
                }
                self.last_confirm = Some(n);
                return (Some(f.dr_on_even), ParitySource::Measured);
            }
        }

        if let (Some(base), Some(last_confirm)) = (self.base, self.last_confirm) {
            if self.agree >= Self::MIN_LOCK && n - last_confirm <= Self::MAX_AGE {
                return (Some(base != flip), ParitySource::Flywheel);
            }
        }
        (None, ParitySource::Unlocked)
    }
}

/// Per-decode SECAM state carried across fields.
pub struct SecamState {
    pub flywheel: SecamParityFlywheel,
}

impl SecamState {
    /// State for a decode that has seen no field.
    pub fn new() -> (state: Self)
        ensures
            state.flywheel@ == FlywheelModel::initial(),
            state.flywheel@.wf(),
    {
        Self { flywheel: SecamParityFlywheel::new() }
    }
}

/// Every resolution keeps the flywheel state consistent.
pub proof fn lemma_resolve_keeps_wf(m: FlywheelModel, readloc: u64, fit: Option<LineFit>)
    requires
        m.wf(),
    ensures
        m.resolved(readloc, fit).wf(),
{
}

} // verus!

verus! {

/// The alternation phase walks a strict four-field cycle: it repeats every four
/// fields, and within a cycle flips on the second and third field
/// (`F T T F`).
pub proof fn lemma_flip_four_field_cycle(n: int)
    ensures
        spec_flip(n + 4) == spec_flip(n),
        spec_flip(n) <==> (n % 4 == 1 || n % 4 == 2),
{
    let q = (n + 1) / 2;
    assert((n + 5) / 2 == q + 2);
    assert((q + 2) % 2 == q % 2);
    assert(((n + 1) / 2) % 2 == 1 <==> (n % 4 == 1 || n % 4 == 2)) by (nonlinear_arith);
}

/// Resolving the same `readloc` again does not advance the field counter; a new
/// `readloc` advances it by one.
pub proof fn lemma_repeated_readloc_is_the_same_field(
    m: FlywheelModel,
    readloc: u64,
    fit: Option<LineFit>,
)
    ensures
        m.resolved(readloc, fit).last_readloc == Some(readloc),
        m.last_readloc == Some(readloc) ==> m.resolved(readloc, fit).index == m.index,
        m.last_readloc != Some(readloc) ==> m.resolved(readloc, fit).index == m.index + 1,
{
}

/// A confident fit is reported as measured, and teaches the flywheel the
/// alternation phase that puts this field on the four-field cycle.
pub proof fn lemma_confident_field_is_measured(
    m: FlywheelModel,
    readloc: u64,
    fit: Option<LineFit>,
)
    requires
        spec_confident_fit(fit),
    ensures
        m.outcome(readloc, fit) == (Some(fit->0.dr_on_even), ParitySource::Measured),
        m.resolved(readloc, fit).base == Some(
            fit->0.dr_on_even != spec_flip(m.advanced_index(readloc)),
        ),
        m.resolved(readloc, fit).last_confirm == Some(m.advanced_index(readloc)),
{
}

/// A fit below the confidence threshold (or no fit) never teaches the
/// flywheel: the learned phase, its agreement count and its last confirmation
/// are left as they were.
pub proof fn lemma_unconfident_fit_teaches_nothing(
    m: FlywheelModel,
    readloc: u64,
    fit: Option<LineFit>,
)
    requires
        !spec_confident_fit(fit),
    ensures
        m.resolved(readloc, fit).base == m.base,
        m.resolved(readloc, fit).agree == m.agree,
        m.resolved(readloc, fit).last_confirm == m.last_confirm,
{
}

/// Before `MIN_LOCK` confident fields agreed, a field without a confident fit
/// gets no parity.
pub proof fn lemma_unlocked_before_min_lock(m: FlywheelModel, readloc: u64, fit: Option<LineFit>)
    requires
        !spec_confident_fit(fit),
        m.agree < SecamParityFlywheel::MIN_LOCK,
    ensures
        m.outcome(readloc, fit) == (None::<bool>, ParitySource::Unlocked),
{
}

/// A lock not confirmed for more than `MAX_AGE` fields no longer predicts.
pub proof fn lemma_lock_expires(m: FlywheelModel, readloc: u64, fit: Option<LineFit>)
    requires
        !spec_confident_fit(fit),
        m.last_confirm matches Some(c) && m.advanced_index(readloc) - c > SecamParityFlywheel::MAX_AGE,
    ensures
        m.outcome(readloc, fit) == (None::<bool>, ParitySource::Unlocked),
{
}

/// Only the flywheel or a confident measurement produce a parity; the flywheel
/// only predicts from a lock of at least `MIN_LOCK` agreeing fields confirmed
/// within `MAX_AGE` fields, and its prediction is the learned phase carried
/// along the four-field cycle.
pub proof fn lemma_flywheel_needs_a_fresh_lock(m: FlywheelModel, readloc: u64, fit: Option<LineFit>)
    requires
        m.wf(),
    ensures
        m.outcome(readloc, fit).0 is Some <==> m.outcome(readloc, fit).1 != ParitySource::Unlocked,
        m.outcome(readloc, fit).1 == ParitySource::Measured <==> spec_confident_fit(fit),
        m.outcome(readloc, fit).1 == ParitySource::Flywheel ==> {
            &&& m.locked_at(m.advanced_index(readloc))
            &&& m.outcome(readloc, fit).0 == Some(
                m.base->0 != spec_flip(m.advanced_index(readloc)),
            )
        },
{
}

/// A confident field that agrees with the learned phase strengthens the lock
/// by one more agreeing field and confirms it at this field.
pub proof fn lemma_agreeing_field_strengthens_lock(
    m: FlywheelModel,
    readloc: u64,
    fit: Option<LineFit>,
)
    requires
        spec_confident_fit(fit),
        m.base == Some(fit->0.dr_on_even != spec_flip(m.advanced_index(readloc))),
    ensures
        m.resolved(readloc, fit).base == m.base,
        m.resolved(readloc, fit).agree == m.agree + 1,
        m.resolved(readloc, fit).last_confirm == Some(m.advanced_index(readloc)),
{
}

/// A confident field that contradicts the learned phase resets the lock: the
/// agreement count restarts at one, so the next field without a confident fit
/// is unlocked.
pub proof fn lemma_contradiction_resets_lock(
    m: FlywheelModel,
    readloc: u64,
    fit: Option<LineFit>,
    next_readloc: u64,
    next_fit: Option<LineFit>,
)
    requires
        m.wf(),
        spec_confident_fit(fit),
        m.base is Some,
        m.base != Some(fit->0.dr_on_even != spec_flip(m.advanced_index(readloc))),
        !spec_confident_fit(next_fit),
    ensures
        m.resolved(readloc, fit).agree == 1,
        m.resolved(readloc, fit).outcome(next_readloc, next_fit) == (
            None::<bool>,
            ParitySource::Unlocked,
        ),
{
}

/// One bit locks every field: starting from a fresh flywheel, four successive
/// fields whose confident fits follow the four-field cycle of a phase `base`
/// are reported as measured, and the next field without a confident fit
/// inherits `base` carried along the cycle.
pub proof fn lemma_four_consistent_fields_lock(
    base: bool,
    readlocs: Seq<u64>,
    fits: Seq<LineFit>,
    last_fit: Option<LineFit>,
)
    requires
        readlocs.len() == 5,
        fits.len() == 4,
        forall|i: int| 0 <= i < 4 ==> readlocs[i + 1] != #[trigger] readlocs[i],
        forall|i: int| 0 <= i < 4 ==> (#[trigger] fits[i]).spec_confident(),
        forall|i: int| 0 <= i < 4 ==> (#[trigger] fits[i]).dr_on_even == (base != spec_flip(i)),
        !spec_confident_fit(last_fit),
    ensures
        ({
            let m0 = FlywheelModel::initial();
            let m1 = m0.resolved(readlocs[0], Some(fits[0]));
            let m2 = m1.resolved(readlocs[1], Some(fits[1]));
            let m3 = m2.resolved(readlocs[2], Some(fits[2]));
            let m4 = m3.resolved(readlocs[3], Some(fits[3]));
            &&& m0.outcome(readlocs[0], Some(fits[0])) == (
                Some(fits[0].dr_on_even),
                ParitySource::Measured,
            )
            &&& m1.outcome(readlocs[1], Some(fits[1])) == (
                Some(fits[1].dr_on_even),
                ParitySource::Measured,
            )
            &&& m2.outcome(readlocs[2], Some(fits[2])) == (
                Some(fits[2].dr_on_even),
                ParitySource::Measured,
            )
            &&& m3.outcome(readlocs[3], Some(fits[3])) == (
                Some(fits[3].dr_on_even),
                ParitySource::Measured,
            )
            &&& m4.outcome(readlocs[4], last_fit) == (
                Some(base != spec_flip(4)),
                ParitySource::Flywheel,
            )
        }),
{
    let m0 = FlywheelModel::initial();
    let m1 = m0.resolved(readlocs[0], Some(fits[0]));
    let m2 = m1.resolved(readlocs[1], Some(fits[1]));
    let m3 = m2.resolved(readlocs[2], Some(fits[2]));
    let m4 = m3.resolved(readlocs[3], Some(fits[3]));
    assert(readlocs[1] != readlocs[0]);
    assert(readlocs[2] != readlocs[1]);
    assert(readlocs[3] != readlocs[2]);
    assert(readlocs[4] != readlocs[3]);
    assert(fits[0].dr_on_even == (base != spec_flip(0)));
    assert(fits[1].dr_on_even == (base != spec_flip(1)));
    assert(fits[2].dr_on_even == (base != spec_flip(2)));
    assert(fits[3].dr_on_even == (base != spec_flip(3)));
    assert(fits[0].spec_confident());
    assert(fits[1].spec_confident());
    assert(fits[2].spec_confident());
    assert(fits[3].spec_confident());
    assert(m1.index == 0 && m1.base == Some(base) && m1.agree == 1);
    assert(m2.index == 1 && m2.base == Some(base) && m2.agree == 2);
    assert(m3.index == 2 && m3.base == Some(base) && m3.agree == 3);
    assert(m4.index == 3 && m4.base == Some(base) && m4.agree == 4);
    assert(m4.last_confirm == Some(3int));
    assert(m4.advanced_index(readlocs[4]) == 4);
}

} // verus!

verus! {

/// Resolving the same field again without a confident fit changes nothing: the
/// second call reports what the first reported and leaves the state as the
/// first call left it.
pub proof fn lemma_repeated_unfitted_field_is_stable(
    m: FlywheelModel,
    readloc: u64,
    fit: Option<LineFit>,
    again: Option<LineFit>,
)
    requires
        !spec_confident_fit(fit),
        !spec_confident_fit(again),
    ensures
        m.resolved(readloc, fit).resolved(readloc, again) == m.resolved(readloc, fit),
        m.resolved(readloc, fit).outcome(readloc, again) == m.outcome(readloc, fit),
        m.resolved(readloc, fit).can_resolve(readloc, again) == m.can_resolve(readloc, fit),
{
}

/// State after resolving the first `k` fields of a history, field `i` being
/// identified by `readlocs[i]` and fitted with `fits[i]`.
pub open spec fn spec_run(
    m: FlywheelModel,
    readlocs: Seq<u64>,
    fits: Seq<Option<LineFit>>,
    k: int,
) -> FlywheelModel
    decreases k,
{
    if k <= 0 {
        m
    } else {
        spec_run(m, readlocs, fits, k - 1).resolved(readlocs[k - 1], fits[k - 1])
    }
}

/// Successive fields of the history are told apart by their `readloc`.
pub open spec fn spec_distinct_successive(readlocs: Seq<u64>) -> bool {
    forall|i: int| 0 <= i < readlocs.len() - 1 ==> readlocs[i + 1] != #[trigger] readlocs[i]
}

/// From a fresh flywheel, a history of fields told apart by their `readloc`
/// numbers its fields from zero.
proof fn lemma_run_numbers_fields(
    readlocs: Seq<u64>,
    fits: Seq<Option<LineFit>>,
    k: int,
)
    requires
        0 < k <= fits.len(),
        fits.len() < readlocs.len(),
        spec_distinct_successive(readlocs),
    ensures
        spec_run(FlywheelModel::initial(), readlocs, fits, k).index == k - 1,
        spec_run(FlywheelModel::initial(), readlocs, fits, k).last_readloc == Some(readlocs[k - 1]),
    decreases k,
{
    assert(spec_run(FlywheelModel::initial(), readlocs, fits, k) == spec_run(
        FlywheelModel::initial(),
        readlocs,
        fits,
        k - 1,
    ).resolved(readlocs[k - 1], fits[k - 1]));
    if k > 1 {
        lemma_run_numbers_fields(readlocs, fits, k - 1);
        assert(readlocs[k - 1] != readlocs[k - 2]);
    } else {
        assert(spec_run(FlywheelModel::initial(), readlocs, fits, 0) == FlywheelModel::initial());
    }
}

/// Number of the agreeing fields `j` before field `k`.
pub open spec fn spec_agreeing_before(j: Seq<int>, k: int) -> nat
    decreases j.len(),
{
    if j.len() == 0 {
        0
    } else {
        spec_agreeing_before(j.drop_last(), k) + if j.last() < k {
            1nat
        } else {
            0nat
        }
    }
}

/// The agreeing fields of a history: strictly increasing, each with a
/// confident fit on the phase `base`, and no other confident fit from the
/// first of them up to field `n`.
pub open spec fn spec_agreeing_fields(
    fits: Seq<Option<LineFit>>,
    j: Seq<int>,
    base: bool,
    n: int,
) -> bool {
    &&& j.len() > 0
    &&& 0 <= j[0]
    &&& j.last() < n <= fits.len()
    &&& forall|a: int, c: int| 0 <= a < c < j.len() ==> j[a] < j[c]
    &&& forall|a: int|
        0 <= a < j.len() ==> spec_confident_fit(#[trigger] fits[j[a]]) && (fits[j[a]]->0.dr_on_even
            != spec_flip(j[a])) == base
    &&& forall|i: int|
        j[0] < i < n && !j.contains(i) ==> !spec_confident_fit(#[trigger] fits[i])
}

/// Counting the agreeing fields before a field past the last of them counts
/// all of them; before a field at most the first, none.
proof fn lemma_agreeing_before_bounds(j: Seq<int>, k: int)
    requires
        forall|a: int, c: int| 0 <= a < c < j.len() ==> j[a] < j[c],
    ensures
        j.len() > 0 && j.last() < k ==> spec_agreeing_before(j, k) == j.len(),
        j.len() > 0 && k <= j[0] ==> spec_agreeing_before(j, k) == 0,
    decreases j.len(),
{
    if j.len() > 0 {
        let p = j.drop_last();
        assert forall|a: int, c: int| 0 <= a < c < p.len() implies p[a] < p[c] by {
            assert(p[a] == j[a] && p[c] == j[c]);
        }
        lemma_agreeing_before_bounds(p, k);
        assert(spec_agreeing_before(j, k) == spec_agreeing_before(p, k) + if j.last() < k {
            1nat
        } else {
            0nat
        });
        if p.len() == 0 {
            assert(spec_agreeing_before(p, k) == 0);
        } else {
            assert(p.last() == j[j.len() - 2]);
            assert(j[j.len() - 2] < j[j.len() - 1]);
            assert(p[0] == j[0]);
            assert(j[0] <= j[j.len() - 1]);
        }
    }
}

/// Stepping past field `k` adds one to the count exactly when `k` is an
/// agreeing field.
proof fn lemma_agreeing_before_step(j: Seq<int>, k: int)
    requires
        forall|a: int, c: int| 0 <= a < c < j.len() ==> j[a] < j[c],
    ensures
        spec_agreeing_before(j, k + 1) == spec_agreeing_before(j, k) + if j.contains(k) {
            1nat
        } else {
            0nat
        },
    decreases j.len(),
{
    if j.len() > 0 {
        let p = j.drop_last();
        assert forall|a: int, c: int| 0 <= a < c < p.len() implies p[a] < p[c] by {
            assert(p[a] == j[a] && p[c] == j[c]);
        }
        lemma_agreeing_before_step(p, k);
        if j.contains(k) {
            let w = choose|w: int| 0 <= w < j.len() && j[w] == k;
            if w < j.len() - 1 {
                assert(p[w] == k);
                assert(p.contains(k));
                assert(j[w] < j.last());
            } else {
                assert forall|w2: int| 0 <= w2 < p.len() implies p[w2] != k by {
                    assert(j[w2] < j.last());
                }
            }
        } else {
            assert forall|w2: int| 0 <= w2 < p.len() implies p[w2] != k by {
                assert(j[w2] == p[w2]);
            }
            assert(j.last() != k) by {
                assert(j[j.len() - 1] == j.last());
            }
        }
    }
}

/// From the first agreeing field on, the flywheel holds the phase `base`, its
/// agreement count covers every agreeing field so far, and it was last
/// confirmed at the latest of them.
proof fn lemma_run_holds_the_phase(
    readlocs: Seq<u64>,
    fits: Seq<Option<LineFit>>,
    j: Seq<int>,
    base: bool,
    n: int,
    k: int,
)
    requires
        fits.len() < readlocs.len(),
        spec_distinct_successive(readlocs),
        spec_agreeing_fields(fits, j, base, n),
        j[0] < k <= n,
    ensures
        ({
            let s = spec_run(FlywheelModel::initial(), readlocs, fits, k);
            &&& s.base == Some(base)
            &&& s.agree >= spec_agreeing_before(j, k)
            &&& s.last_confirm matches Some(c) && c <= k - 1 && (forall|a: int|
                0 <= a < j.len() && j[a] < k ==> j[a] <= c)
        }),
    decreases k,
{
    let i = k - 1;
    lemma_run_numbers_fields(readlocs, fits, k);
    lemma_agreeing_before_step(j, i);
    let s = spec_run(FlywheelModel::initial(), readlocs, fits, k);
    if i == j[0] {
        assert(spec_confident_fit(fits[j[0]]));
        lemma_agreeing_before_bounds(j, i);
        assert(j.contains(i));
        assert forall|a: int| 0 <= a < j.len() && j[a] < k implies j[a] <= i by {}
    } else {
        lemma_run_holds_the_phase(readlocs, fits, j, base, n, k - 1);
        if i > 0 {
            lemma_run_numbers_fields(readlocs, fits, k - 1);
        }
        let prev = spec_run(FlywheelModel::initial(), readlocs, fits, k - 1);
        assert(prev.index == i - 1);
        assert(readlocs[i] != readlocs[i - 1]);
        if j.contains(i) {
            let w = choose|w: int| 0 <= w < j.len() && j[w] == i;
            assert(spec_confident_fit(fits[j[w]]));
            assert forall|a: int| 0 <= a < j.len() && j[a] < k implies j[a] <= i by {}
        } else {
            assert(!spec_confident_fit(fits[i]));
        }
    }
}

/// One learned bit predicts every field: from a fresh flywheel, once
/// `MIN_LOCK` confident fields agree on the phase `base` and no confident
/// field contradicts it, every later field without a confident fit, up to
/// `MAX_AGE` fields after the last agreeing one, is predicted as
/// `base ^ flip(n)` from the flywheel.
///
/// Field `i` of the history is identified by `readlocs[i]`, successive fields
/// by different `readloc`s, and fitted with `fits[i]`; field `n` is resolved
/// with `last_fit`.
pub proof fn lemma_lock_carries_over_any_history(
    readlocs: Seq<u64>,
    fits: Seq<Option<LineFit>>,
    j: Seq<int>,
    base: bool,
    n: int,
    last_fit: Option<LineFit>,
)
    requires
        readlocs.len() == n + 1,
        fits.len() == n,
        spec_distinct_successive(readlocs),
        j.len() >= SecamParityFlywheel::MIN_LOCK,
        spec_agreeing_fields(fits, j, base, n),
        n - j.last() <= SecamParityFlywheel::MAX_AGE,
        !spec_confident_fit(last_fit),
    ensures
        spec_run(FlywheelModel::initial(), readlocs, fits, n).outcome(readlocs[n], last_fit) == (
            Some(base != spec_flip(n)),
            ParitySource::Flywheel,
        ),
{
    lemma_run_holds_the_phase(readlocs, fits, j, base, n, n);
    lemma_run_numbers_fields(readlocs, fits, n);
    lemma_agreeing_before_bounds(j, n);
    assert(readlocs[n] != readlocs[n - 1]);
    assert(j[j.len() - 1] == j.last());
    let s = spec_run(FlywheelModel::initial(), readlocs, fits, n);
    assert(s.advanced_index(readlocs[n]) == n);
    assert(s.locked_at(n));
}

} // verus!

verus! {

/// The first confident field a flywheel with no learned phase sees is one
/// agreeing field: the count starts at exactly one.
pub proof fn lemma_first_confident_field_counts_once(
    m: FlywheelModel,
    readloc: u64,
    fit: Option<LineFit>,
)
    requires
        m.base is None,
        spec_confident_fit(fit),
    ensures
        m.resolved(readloc, fit).agree == 1,
        m.resolved(readloc, fit).base is Some,
{
}

/// Number of confident fits among the first `k` fields of a history.
pub open spec fn spec_confident_count(fits: Seq<Option<LineFit>>, k: int) -> nat
    decreases k,
{
    if k <= 0 {
        0
    } else {
        spec_confident_count(fits, k - 1) + if spec_confident_fit(fits[k - 1]) {
            1nat
        } else {
            0nat
        }
    }
}

/// From a fresh flywheel, the agreement count never exceeds the number of
/// confident fields resolved so far.
pub proof fn lemma_agreement_counts_only_confident_fields(
    readlocs: Seq<u64>,
    fits: Seq<Option<LineFit>>,
    k: int,
)
    requires
        0 <= k <= fits.len(),
        k <= readlocs.len(),
    ensures
        spec_run(FlywheelModel::initial(), readlocs, fits, k).agree <= spec_confident_count(fits, k),
    decreases k,
{
    if k > 0 {
        lemma_agreement_counts_only_confident_fields(readlocs, fits, k - 1);
        let prev = spec_run(FlywheelModel::initial(), readlocs, fits, k - 1);
        assert(spec_run(FlywheelModel::initial(), readlocs, fits, k) == prev.resolved(
            readlocs[k - 1],
            fits[k - 1],
        ));
    }
}

/// The lock needs `MIN_LOCK` confident fields: from a fresh flywheel, after
/// any history with fewer than `MIN_LOCK` confident fits, a field without a
/// confident fit gets no parity.
pub proof fn lemma_no_lock_before_min_lock_confident_fields(
    readlocs: Seq<u64>,
    fits: Seq<Option<LineFit>>,
    n: int,
    readloc: u64,
    last_fit: Option<LineFit>,
)
    requires
        0 <= n <= fits.len(),
        n <= readlocs.len(),
        spec_confident_count(fits, n) < SecamParityFlywheel::MIN_LOCK,
        !spec_confident_fit(last_fit),
    ensures
        spec_run(FlywheelModel::initial(), readlocs, fits, n).outcome(readloc, last_fit) == (
            None::<bool>,
            ParitySource::Unlocked,
        ),
{
    lemma_agreement_counts_only_confident_fields(readlocs, fits, n);
}

/// Three confident fields are not a lock: from a fresh flywheel, three
/// confident fields followed by a field without a confident fit leave that
/// field unlocked, whatever the fits say and whichever fields they are.
pub proof fn lemma_three_confident_fields_do_not_lock(
    r0: u64,
    f0: Option<LineFit>,
    r1: u64,
    f1: Option<LineFit>,
    r2: u64,
    f2: Option<LineFit>,
    r3: u64,
    f3: Option<LineFit>,
)
    requires
        !spec_confident_fit(f3),
    ensures
        FlywheelModel::initial().resolved(r0, f0).resolved(r1, f1).resolved(r2, f2).outcome(
            r3,
            f3,
        ) == (None::<bool>, ParitySource::Unlocked),
{
    let m1 = FlywheelModel::initial().resolved(r0, f0);
    assert(m1.agree <= 1);
    assert(m1.resolved(r1, f1).agree <= 2);
    assert(m1.resolved(r1, f1).resolved(r2, f2).agree <= 3);
}

/// With a learned phase confirmed at most 32 fields ago, a field without a
/// confident fit is predicted exactly when at least four fields agreed on the
/// phase.
pub proof fn lemma_lock_takes_four_agreeing_fields(
    m: FlywheelModel,
    readloc: u64,
    fit: Option<LineFit>,
    c: int,
)
    requires
        m.base is Some,
        m.last_confirm == Some(c),
        m.advanced_index(readloc) - c <= 32,
        !spec_confident_fit(fit),
    ensures
        m.outcome(readloc, fit).1 == ParitySource::Flywheel <==> m.agree >= 4,
{
}

/// A lock of at least four agreeing fields predicts a field without a
/// confident fit exactly while that field is at most 32 fields after the last
/// confirmation.
pub proof fn lemma_lock_lasts_thirty_two_fields(
    m: FlywheelModel,
    readloc: u64,
    fit: Option<LineFit>,
    c: int,
)
    requires
        m.base is Some,
        m.agree >= 4,
        m.last_confirm == Some(c),
        !spec_confident_fit(fit),
    ensures
        m.outcome(readloc, fit).1 == ParitySource::Flywheel <==> m.advanced_index(readloc) - c
            <= 32,
{
}

} // verus!
