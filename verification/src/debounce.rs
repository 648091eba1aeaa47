//! Debouncing of a noisy momentary switch.
//!
//! A [`Debouncer`] is fed one raw sample per sampling period and reports a
//! change of the confirmed state only after the new level has been seen for a
//! state-specific number of consecutive samples.

use vstd::prelude::*;

verus! {

/// Logical state of a momentary button.
#[derive(PartialEq, Eq, Structural, Clone, Copy, Debug)]
pub enum BtnState {
    Pressed,
    NotPressed,
}

/// Mathematical model of a [`Debouncer`].
pub struct DebouncerView {
    /// Consecutive samples needed to confirm `Pressed`.
    pub press_ticks: nat,
    /// Consecutive samples needed to confirm `NotPressed`.
    pub release_ticks: nat,
    /// The last confirmed state.
    pub confirmed: BtnState,
    /// Consecutive samples seen so far that disagree with `confirmed`.
    pub count: nat,
}

impl DebouncerView {
    /// Number of consecutive samples of `target` needed to confirm it.
    pub open spec fn threshold(self, target: BtnState) -> nat {
        match target {
            BtnState::Pressed => self.press_ticks,
            BtnState::NotPressed => self.release_ticks,
        }
    }

    /// The counter never reaches the threshold of the state it is counting towards.
    pub open spec fn wf(self) -> bool {
        self.count == 0 || self.count < self.threshold(opposite(self.confirmed))
    }

    /// Whether the sample `raw` confirms a change of state.
    pub open spec fn confirms(self, raw: BtnState) -> bool {
        raw != self.confirmed && self.count + 1 >= self.threshold(raw)
    }

    /// The state after the sample `raw`.
    pub open spec fn next(self, raw: BtnState) -> DebouncerView {
        if raw == self.confirmed {
            DebouncerView { count: 0, ..self }
        } else if self.confirms(raw) {
            DebouncerView { count: 0, confirmed: raw, ..self }
        } else {
            DebouncerView { count: self.count + 1, ..self }
        }
    }

    /// The event reported for the sample `raw`.
    pub open spec fn emitted(self, raw: BtnState) -> Option<BtnState> {
        if self.confirms(raw) {
            Some(raw)
        } else {
            None
        }
    }

    /// Samples of `target` still needed, from this state, to confirm it.
    pub open spec fn remaining(self, target: BtnState) -> int {
        if self.threshold(target) == 0 {
            1 - self.count
        } else {
            self.threshold(target) - self.count
        }
    }

    /// The state after the samples `samples`, taken in order.
    pub open spec fn run(self, samples: Seq<BtnState>) -> DebouncerView
        decreases samples.len(),
    {
        if samples.len() == 0 {
            self
        } else {
            self.run(samples.drop_last()).next(samples.last())
        }
    }

    /// The events reported while taking the samples `samples`, in order.
    pub open spec fn events(self, samples: Seq<BtnState>) -> Seq<BtnState>
        decreases samples.len(),
    {
        if samples.len() == 0 {
            Seq::empty()
        } else {
            let earlier = self.events(samples.drop_last());
            match self.run(samples.drop_last()).emitted(samples.last()) {
                Some(s) => earlier.push(s),
                None => earlier,
            }
        }
    }
}

/// `n` consecutive samples of the state `level`.
pub open spec fn steady(level: BtnState, n: nat) -> Seq<BtnState> {
    Seq::new(n, |i: int| level)
}

/// The other button state.
pub open spec fn opposite(s: BtnState) -> BtnState {
    match s {
        BtnState::Pressed => BtnState::NotPressed,
        BtnState::NotPressed => BtnState::Pressed,
    }
}

/// Samples of a held-down button before the press is reported.
pub const PRESS_TICKS: usize = 2;

/// Samples of a let-go button before the release is reported. Contacts bounce
/// longer on release than on press, so this is the larger of the two.
pub const RELEASE_TICKS: usize = 20;

/// Debounce state of one button.
#[derive(PartialEq, Eq, Structural, Debug)]
pub struct Debouncer {
    press_ticks: usize,
    release_ticks: usize,
    btn_state: BtnState,
    count: usize,
}

impl View for Debouncer {
    type V = DebouncerView;

    closed spec fn view(&self) -> DebouncerView {
        DebouncerView {
            press_ticks: self.press_ticks as nat,
            release_ticks: self.release_ticks as nat,
            confirmed: self.btn_state,
            count: self.count as nat,
        }
    }
}

impl Debouncer {
    #[verifier::type_invariant]
    closed spec fn inv(self) -> bool {
        self@.wf()
    }

    /// A debouncer in the released state with the given thresholds.
    pub fn new(press_ticks: usize, release_ticks: usize) -> (d: Self)
        ensures
            d@ == (DebouncerView {
                press_ticks: press_ticks as nat,
                release_ticks: release_ticks as nat,
                confirmed: BtnState::NotPressed,
                count: 0,
            }),
            d@.wf(),
    {
        Debouncer { press_ticks, release_ticks, btn_state: BtnState::NotPressed, count: 0 }
    }

    /// The last confirmed state.
    pub fn btn_state(&self) -> (state: BtnState)
        ensures
            state == self@.confirmed,
    {
        self.btn_state
    }

    /// Consecutive samples seen so far that disagree with the confirmed state.
    pub fn count(&self) -> (count: usize)
        ensures
            count == self@.count,
            self@.wf(),
    {
        proof {
            use_type_invariant(self);
        }
        self.count
    }

    /// Feeds one raw sample and reports the newly confirmed state, if any.
    pub fn update(&mut self, raw_state: BtnState) -> (event: Option<BtnState>)
        ensures
            final(self)@ == old(self)@.next(raw_state),
            event == old(self)@.emitted(raw_state),
            final(self)@.wf(),
    {
        proof {
            use_type_invariant(&*self);
        }
        if self.btn_state == raw_state {
            self.count = 0;
            return None;
        }
        let target_ticks = if raw_state == BtnState::Pressed {
            self.press_ticks
        } else {
            self.release_ticks
        };
        let seen: usize = self.count + 1;
        if seen >= target_ticks {
            self.count = 0;
            self.btn_state = raw_state;
            Some(raw_state)
        } else {
            self.count = seen;
            None
        }
    }
}

} // verus!

verus! {

/// Sampling is sequential: taking `a` and then `b` is taking `a + b`.
pub proof fn lemma_run_concat(d: DebouncerView, a: Seq<BtnState>, b: Seq<BtnState>)
    ensures
        d.run(a + b) == d.run(a).run(b),
        d.events(a + b) == d.events(a) + d.run(a).events(b),
    decreases b.len(),
{
    if b.len() == 0 {
        assert(a + b =~= a);
        assert(d.events(a) + d.run(a).events(b) =~= d.events(a));
    } else {
        lemma_run_concat(d, a, b.drop_last());
        assert((a + b).drop_last() =~= a + b.drop_last());
        assert((a + b).last() == b.last());
        let mid = d.run(a).run(b.drop_last());
        match mid.emitted(b.last()) {
            Some(s) => {
                assert(d.events(a + b) =~= d.events(a) + d.run(a).events(b));
            },
            None => {},
        }
    }
}

/// Well-formedness is kept by every sample.
pub proof fn lemma_next_wf(d: DebouncerView, raw: BtnState)
    requires
        d.wf(),
    ensures
        d.next(raw).wf(),
{
}

/// No state is reported twice in a row: the first event differs from the state
/// that was confirmed at the start, each later event differs from the event
/// before it, and the confirmed state is always the last event reported.
pub proof fn lemma_events_alternate(d: DebouncerView, samples: Seq<BtnState>)
    ensures
        d.events(samples).len() > 0 ==> d.events(samples)[0] != d.confirmed,
        forall|j: int, k: int|
            0 <= j && k == j + 1 && k < d.events(samples).len() ==> #[trigger] d.events(
                samples,
            )[j] != #[trigger] d.events(samples)[k],
        d.run(samples).confirmed == (if d.events(samples).len() == 0 {
            d.confirmed
        } else {
            d.events(samples).last()
        }),
    decreases samples.len(),
{
    if samples.len() > 0 {
        let head = samples.drop_last();
        lemma_events_alternate(d, head);
        let earlier = d.events(head);
        let all = d.events(samples);
        match d.run(head).emitted(samples.last()) {
            Some(s) => {
                assert(all == earlier.push(s));
                assert forall|j: int, k: int| 0 <= j && k == j + 1 && k < all.len() implies all[j]
                    != all[k] by {
                    if k < earlier.len() {
                        assert(earlier[j] != earlier[k]);
                    }
                }
            },
            None => {
                assert(all == earlier);
            },
        }
    }
}

/// A single sample never reports the state that is already confirmed.
pub proof fn lemma_event_is_a_change(d: DebouncerView, raw: BtnState)
    ensures
        d.emitted(raw) is Some ==> d.emitted(raw) == Some(raw) && raw != d.confirmed
            && d.next(raw).confirmed == raw && d.next(raw).count == 0,
        d.emitted(raw) is None ==> d.next(raw).confirmed == d.confirmed,
{
}

/// While fewer samples of the other state have been seen than its threshold
/// asks for, nothing is reported and the samples are only counted.
pub proof fn lemma_counting(d: DebouncerView, target: BtnState, n: nat)
    requires
        target != d.confirmed,
        d.count + n < d.threshold(target),
    ensures
        d.events(steady(target, n)) == Seq::<BtnState>::empty(),
        d.run(steady(target, n)) == (DebouncerView { count: d.count + n, ..d }),
    decreases n,
{
    if n > 0 {
        let shorter = (n - 1) as nat;
        lemma_counting(d, target, shorter);
        assert(steady(target, n).drop_last() =~= steady(target, shorter));
    }
}

/// Samples that agree with the confirmed state report nothing and hold the
/// counter at zero.
pub proof fn lemma_settled(d: DebouncerView, n: nat)
    requires
        n > 0,
    ensures
        d.events(steady(d.confirmed, n)) == Seq::<BtnState>::empty(),
        d.run(steady(d.confirmed, n)) == (DebouncerView { count: 0, ..d }),
    decreases n,
{
    let shorter = (n - 1) as nat;
    assert(steady(d.confirmed, n).drop_last() =~= steady(d.confirmed, shorter));
    assert(steady(d.confirmed, n).last() == d.confirmed);
    if shorter > 0 {
        lemma_settled(d, shorter);
    } else {
        assert(steady(d.confirmed, shorter).len() == 0);
    }
}

/// A run of samples of the other state that is long enough to confirm it
/// reports that state exactly once, on the sample that completes the
/// threshold; the counter is zero right after that sample and at the end of
/// the run.
pub proof fn lemma_confirmed_once(d: DebouncerView, target: BtnState, n: nat)
    requires
        d.wf(),
        target != d.confirmed,
        n >= d.remaining(target),
    ensures
        d.remaining(target) >= 1,
        d.events(steady(target, n)) == seq![target],
        forall|i: int|
            0 <= i < n ==> ((#[trigger] d.run(steady(target, i as nat))).emitted(target) is Some
                <==> i + 1 == d.remaining(target)),
        d.run(steady(target, d.remaining(target) as nat)) == (DebouncerView {
            count: 0,
            confirmed: target,
            ..d
        }),
        d.run(steady(target, n)) == (DebouncerView { count: 0, confirmed: target, ..d }),
{
    let need = d.remaining(target) as nat;
    let flipped = DebouncerView { count: 0, confirmed: target, ..d };
    lemma_run_to_flip(d, target);
    assert forall|i: int| 0 <= i < n implies ((#[trigger] d.run(
        steady(target, i as nat),
    )).emitted(target) is Some <==> i + 1 == need) by {
        if i < need {
            lemma_counting_below_flip(d, target, i as nat);
        } else {
            let extra = (i - need) as nat;
            assert(steady(target, i as nat) =~= steady(target, need) + steady(target, extra));
            lemma_run_concat(d, steady(target, need), steady(target, extra));
            if extra > 0 {
                lemma_settled(flipped, extra);
            }
        }
    }
    if n > need {
        let extra = (n - need) as nat;
        assert(steady(target, n) =~= steady(target, need) + steady(target, extra));
        lemma_run_concat(d, steady(target, need), steady(target, extra));
        lemma_settled(flipped, extra);
        assert(seq![target] + Seq::<BtnState>::empty() =~= seq![target]);
    }
}

/// Before the completing sample, the samples of the other state are only counted.
proof fn lemma_counting_below_flip(d: DebouncerView, target: BtnState, i: nat)
    requires
        d.wf(),
        target != d.confirmed,
        i < d.remaining(target),
    ensures
        d.events(steady(target, i)) == Seq::<BtnState>::empty(),
        d.run(steady(target, i)) == (DebouncerView { count: d.count + i, ..d }),
        d.run(steady(target, i)).emitted(target) is Some <==> i + 1 == d.remaining(target),
{
    if d.threshold(target) == 0 {
        assert(steady(target, 0) =~= Seq::<BtnState>::empty());
    } else {
        lemma_counting(d, target, i);
    }
}

/// The sample that completes the threshold flips the confirmed state.
proof fn lemma_run_to_flip(d: DebouncerView, target: BtnState)
    requires
        d.wf(),
        target != d.confirmed,
    ensures
        d.remaining(target) >= 1,
        d.events(steady(target, d.remaining(target) as nat)) == seq![target],
        d.run(steady(target, d.remaining(target) as nat)) == (DebouncerView {
            count: 0,
            confirmed: target,
            ..d
        }),
{
    let need = d.remaining(target) as nat;
    let counted = (need - 1) as nat;
    lemma_counting_below_flip(d, target, counted);
    assert(steady(target, need).drop_last() =~= steady(target, counted));
    assert(Seq::<BtnState>::empty().push(target) =~= seq![target]);
}

/// A run of samples of the other state that stays short of its threshold
/// reports nothing, and one sample of the confirmed state then clears the
/// counter, again without a report.
pub proof fn lemma_short_run_ignored(d: DebouncerView, target: BtnState, n: nat)
    requires
        target != d.confirmed,
        d.count + n < d.threshold(target),
    ensures
        d.events(steady(target, n)) == Seq::<BtnState>::empty(),
        d.run(steady(target, n)).confirmed == d.confirmed,
        d.run(steady(target, n)).count == d.count + n,
        d.run(steady(target, n)).emitted(d.confirmed) is None,
        d.run(steady(target, n)).next(d.confirmed) == (DebouncerView { count: 0, ..d }),
{
    lemma_counting(d, target, n);
}

} // verus!
