//! Counters of detection outcomes.

use vstd::prelude::*;
use vstd::seq_lib::lemma_fold_left_permutation;
use crate::lang::lang_is_its_rank;
use crate::lang::Lang;
use crate::lang::LANG_COUNT;
use crate::ratio::Ratio;
use crate::wrong::add_commutes;
use crate::wrong::is_top;
use crate::wrong::sum_of_update;
use crate::wrong::WrongCounter;
use crate::wrong::WrongCounterView;

verus! {

/// What the detector said of one sample: the language it named, if it named
/// one, and whether it called its answer reliable.
#[derive(Clone, Copy, Debug, PartialEq, Eq)]
pub struct DetectionOutcome {
    pub predicted: Option<Lang>,
    pub is_reliable: bool,
}

impl DetectionOutcome {
    /// Whether the outcome names `target`.
    pub open spec fn names(self, target: Lang) -> bool {
        self.predicted == Some(target)
    }

    /// Whether the language that the outcome names, if any, is one of the
    /// `LANG_COUNT` languages.
    pub open spec fn in_range(self) -> bool {
        self.predicted matches Some(l) ==> l.rank() < LANG_COUNT
    }
}

/// What a `Counter` holds.
pub struct CounterView {
    pub wrong: WrongCounterView,
    pub correct: nat,
    pub reliable_correct: nat,
    pub reliable_false_positives: nat,
}

impl CounterView {
    /// Nothing counted yet.
    pub open spec fn empty() -> CounterView {
        CounterView {
            wrong: WrongCounterView::empty(),
            correct: 0,
            reliable_correct: 0,
            reliable_false_positives: 0,
        }
    }

    /// Number of samples counted.
    pub open spec fn total(self) -> nat {
        self.wrong.total() + self.correct
    }

    /// Number of samples counted whose answer the detector called reliable.
    pub open spec fn reliable_total(self) -> nat {
        self.reliable_correct + self.reliable_false_positives
    }

    /// The reliable answers are a part of the answers of their kind.
    pub open spec fn consistent(self) -> bool {
        &&& self.reliable_correct <= self.correct
        &&& self.reliable_false_positives <= self.wrong.total()
    }

    /// There is one count of wrong answers for each language, the total fits
    /// in 32 bits, and the reliable answers are a part of the answers.
    pub open spec fn wf(self) -> bool {
        &&& self.wrong.langs.len() == LANG_COUNT
        &&& self.total() <= u32::MAX
        &&& self.consistent()
    }

    /// One more wrong answer.
    pub open spec fn inc_wrong(self, lang: Option<Lang>, is_reliable: bool) -> CounterView {
        CounterView {
            wrong: self.wrong.add(lang),
            reliable_false_positives: if is_reliable {
                self.reliable_false_positives + 1
            } else {
                self.reliable_false_positives
            },
            ..self
        }
    }

    /// One more correct answer.
    pub open spec fn inc_correct(self, is_reliable: bool) -> CounterView {
        CounterView {
            correct: self.correct + 1,
            reliable_correct: if is_reliable {
                self.reliable_correct + 1
            } else {
                self.reliable_correct
            },
            ..self
        }
    }

    /// One more answer for a sample in the language `target`: correct where
    /// the detector named `target`, wrong in every other case.
    pub open spec fn record(self, target: Lang, outcome: DetectionOutcome) -> CounterView {
        if outcome.names(target) {
            self.inc_correct(outcome.is_reliable)
        } else {
            self.inc_wrong(outcome.predicted, outcome.is_reliable)
        }
    }

    /// The answers `outcomes` for samples in the language `target`, counted
    /// one after the other.
    pub open spec fn record_all(self, target: Lang, outcomes: Seq<DetectionOutcome>) -> CounterView {
        outcomes.fold_left(self, |c: CounterView, o: DetectionOutcome| c.record(target, o))
    }

    /// The share of correct answers among all answers.
    pub open spec fn accuracy(self) -> Ratio {
        Ratio { num: self.correct as u32, den: self.total() as u32 }
    }

    /// The share of correct answers among the answers called reliable.
    pub open spec fn reliable_accuracy(self) -> Ratio {
        Ratio { num: self.reliable_correct as u32, den: self.reliable_total() as u32 }
    }
}

/// Counts the correct and the wrong answers of a detector, and among each
/// those that the detector called reliable.
pub struct Counter {
    wrong: WrongCounter,
    correct: u32,
    reliable_correct: u32,
    reliable_false_positives: u32,
}

impl View for Counter {
    type V = CounterView;

    closed spec fn view(&self) -> CounterView {
        CounterView {
            wrong: self.wrong@,
            correct: self.correct as nat,
            reliable_correct: self.reliable_correct as nat,
            reliable_false_positives: self.reliable_false_positives as nat,
        }
    }
}

/// How many wrong languages a report names for each counter.
pub const TOP_FALSE_DETECTIONS: usize = 2;

/// The languages of a list of shares, each with the numerator of its share.
pub open spec fn counts_of(shares: Seq<(Lang, Ratio)>) -> Seq<(Lang, u32)> {
    shares.map_values(|share: (Lang, Ratio)| (share.0, share.1.num))
}

/// The share below which the accuracy of reliable answers counts as low, in percent.
pub const RELIABLE_ACCURACY_PERCENT: u32 = 99;

impl Counter {
    /// The counter holds one count for each language, its total fits in
    /// 32 bits, and its reliable answers are a part of its answers.
    pub open spec fn wf(self) -> bool {
        self@.wf()
    }

    /// A counter that has counted nothing.
    pub fn new() -> (counter: Counter)
        ensures
            counter.wf(),
            counter@ == CounterView::empty(),
            counter@.total() == 0,
    {
        Counter {
            wrong: WrongCounter::new(),
            correct: 0,
            reliable_correct: 0,
            reliable_false_positives: 0,
        }
    }

    /// Counts one wrong answer, which named `lang_opt`.
    pub fn inc_wrong(&mut self, lang_opt: Option<Lang>, is_reliable: bool)
        requires
            old(self).wf(),
            old(self)@.total() < u32::MAX,
        ensures
            final(self).wf(),
            final(self)@ == old(self)@.inc_wrong(lang_opt, is_reliable),
            final(self)@.total() == old(self)@.total() + 1,
    {
        self.wrong.add(lang_opt);
        if is_reliable {
            self.reliable_false_positives += 1;
        }
    }

    /// Counts one correct answer.
    pub fn inc_correct(&mut self, is_reliable: bool)
        requires
            old(self).wf(),
            old(self)@.total() < u32::MAX,
        ensures
            final(self).wf(),
            final(self)@ == old(self)@.inc_correct(is_reliable),
            final(self)@.total() == old(self)@.total() + 1,
    {
        self.correct += 1;
        if is_reliable {
            self.reliable_correct += 1;
        }
    }

    /// Counts the answer `outcome` for a sample in the language `target`.
    pub fn record(&mut self, target: Lang, outcome: DetectionOutcome)
        requires
            old(self).wf(),
            old(self)@.total() < u32::MAX,
        ensures
            final(self).wf(),
            final(self)@ == old(self)@.record(target, outcome),
            final(self)@.total() == old(self)@.total() + 1,
    {
        let hit = match outcome.predicted {
            Some(lang) => lang.index() == target.index(),
            None => false,
        };
        proof {
            if let Some(lang) = outcome.predicted {
                lang_is_its_rank(lang, target);
            }
        }
        if hit {
            self.inc_correct(outcome.is_reliable);
        } else {
            self.inc_wrong(outcome.predicted, outcome.is_reliable);
        }
    }

    /// Number of samples counted.
    pub fn total(&self) -> (n: u32)
        requires
            self.wf(),
        ensures
            n == self@.total(),
            n == self@.correct + self@.wrong.total(),
    {
        self.wrong.total() + self.correct
    }

    /// Number of samples counted whose answer the detector called reliable.
    pub fn reliable_total(&self) -> (n: u32)
        requires
            self.wf(),
        ensures
            n == self@.reliable_total(),
            n <= self@.total(),
    {
        self.reliable_correct + self.reliable_false_positives
    }

    /// The share of correct answers among all answers. It has no value while
    /// nothing is counted.
    pub fn accuracy(&self) -> (r: Ratio)
        requires
            self.wf(),
        ensures
            r == self@.accuracy(),
            r.num == self@.correct,
            r.den == self@.total(),
    {
        Ratio::new(self.correct, self.total())
    }

    /// The share of correct answers among the answers called reliable. It has
    /// no value while no such answer is counted.
    pub fn reliable_accuracy(&self) -> (r: Ratio)
        requires
            self.wf(),
        ensures
            r == self@.reliable_accuracy(),
            r.num == self@.reliable_correct,
            r.den == self@.reliable_total(),
    {
        Ratio::new(self.reliable_correct, self.reliable_total())
    }

    /// Whether the accuracy of the reliable answers has a value and that
    /// value is below `RELIABLE_ACCURACY_PERCENT` per cent.
    pub fn reliable_accuracy_is_low(&self) -> (low: bool)
        requires
            self.wf(),
        ensures
            low == (self@.reliable_total() > 0 && self@.reliable_correct * 100
                < RELIABLE_ACCURACY_PERCENT * self@.reliable_total()),
    {
        let ratio = self.reliable_accuracy();
        ratio.is_defined() && ratio.less_than(&Ratio::new(RELIABLE_ACCURACY_PERCENT, 100))
    }

    /// The languages that were named wrongly most often, at most
    /// `TOP_FALSE_DETECTIONS` of them and the most frequent first, each with
    /// its share of all answers. Of two languages that were named equally
    /// often, the one with the lower index comes first.
    pub fn top_false_detections(&self) -> (top: Vec<(Lang, Ratio)>)
        requires
            self.wf(),
        ensures
            is_top(self@.wrong.langs, TOP_FALSE_DETECTIONS as nat, counts_of(top@)),
            forall|k: int| 0 <= k < top.len() ==> (#[trigger] top[k]).1.den == self@.total(),
    {
        let total = self.total();
        let ranking = self.wrong.top(TOP_FALSE_DETECTIONS);
        let mut top: Vec<(Lang, Ratio)> = Vec::new();
        for k in 0..ranking.len()
            invariant
                top.len() == k,
                counts_of(top@) == ranking@.take(k as int),
                forall|j: int| 0 <= j < top.len() ==> (#[trigger] top[j]).1.den == total,
        {
            let ghost before = top@;
            let entry = ranking[k];
            top.push((entry.0, Ratio::new(entry.1, total)));
            assert forall|j: int| 0 <= j < k + 1 implies counts_of(top@)[j] == ranking@.take(
                k + 1,
            )[j] by {
                if j < k {
                    assert(counts_of(before)[j] == ranking@.take(k as int)[j]);
                    assert(top@[j] == before[j]);
                }
            }
            assert(counts_of(top@) =~= ranking@.take(k + 1));
        }
        assert(ranking@.take(ranking@.len() as int) =~= ranking@);
        top
    }

    /// The wrong answers, by the language that was named.
    pub fn wrong(&self) -> (wrong: &WrongCounter)
        ensures
            wrong@ == self@.wrong,
            self.wf() ==> wrong.wf(),
    {
        &self.wrong
    }

    /// Number of correct answers.
    pub fn correct(&self) -> (n: u32)
        ensures
            n == self@.correct,
    {
        self.correct
    }

    /// Number of correct answers that the detector called reliable.
    pub fn reliable_correct(&self) -> (n: u32)
        ensures
            n == self@.reliable_correct,
    {
        self.reliable_correct
    }

    /// Number of wrong answers that the detector called reliable.
    pub fn reliable_false_positives(&self) -> (n: u32)
        ensures
            n == self@.reliable_false_positives,
    {
        self.reliable_false_positives
    }
}

impl Default for Counter {
    fn default() -> (counter: Counter)
        ensures
            counter.wf(),
            counter@ == CounterView::empty(),
            counter@.total() == 0,
    {
        Counter::new()
    }
}

/// Two answers can be counted in either order.
pub proof fn record_commutes(
    counter: CounterView,
    target: Lang,
    a: DetectionOutcome,
    b: DetectionOutcome,
)
    ensures
        counter.record(target, a).record(target, b) == counter.record(target, b).record(target, a),
{
    add_commutes(counter.wrong, a.predicted, b.predicted);
}

/// The state of a counter does not depend on the order in which the answers
/// were counted: two sequences with the same answers, each as often in one as
/// in the other, leave the same counter.
pub proof fn recording_is_order_independent(
    counter: CounterView,
    target: Lang,
    first: Seq<DetectionOutcome>,
    second: Seq<DetectionOutcome>,
)
    requires
        first.to_multiset() == second.to_multiset(),
    ensures
        counter.record_all(target, first) == counter.record_all(target, second),
{
    let step = |c: CounterView, o: DetectionOutcome| c.record(target, o);
    assert forall|a: DetectionOutcome, b: DetectionOutcome, c: CounterView| #[trigger]
        step(step(c, a), b) == step(step(c, b), a) by {
        record_commutes(c, target, a, b);
    }
    lemma_fold_left_permutation(first, second, step, counter);
}

/// After any sequence of answers the total of a counter is the number of its
/// correct answers plus the number of its wrong ones, it has grown by one for
/// each answer, and the reliable answers are still a part of the answers.
pub proof fn totals_after_recording(
    counter: CounterView,
    target: Lang,
    outcomes: Seq<DetectionOutcome>,
)
    requires
        counter.wrong.langs.len() == LANG_COUNT,
        counter.consistent(),
        forall|i: int| 0 <= i < outcomes.len() ==> (#[trigger] outcomes[i]).in_range(),
    ensures
        ({
            let after = counter.record_all(target, outcomes);
            &&& after.total() == after.correct + after.wrong.total()
            &&& after.total() == counter.total() + outcomes.len()
            &&& after.reliable_total() == after.reliable_correct + after.reliable_false_positives
            &&& after.reliable_total() <= after.total()
            &&& after.consistent()
            &&& after.wrong.langs.len() == LANG_COUNT
        }),
    decreases outcomes.len(),
{
    if outcomes.len() > 0 {
        let before = counter.record_all(target, outcomes.drop_last());
        let last = outcomes.last();
        totals_after_recording(counter, target, outcomes.drop_last());
        assert(counter.record_all(target, outcomes) == before.record(target, last));
        if !last.names(target) {
            if let Some(lang) = last.predicted {
                sum_of_update(
                    before.wrong.langs,
                    lang.rank() as int,
                    before.wrong.langs[lang.rank() as int] + 1,
                );
            }
        }
    }
}

/// A counter with correct answers only has an accuracy of exactly 1, and one
/// with wrong answers only an accuracy of exactly 0.
pub proof fn accuracy_of_pure_counter(counter: CounterView)
    requires
        counter.total() <= u32::MAX,
    ensures
        counter.wrong.total() == 0 && counter.correct > 0 ==> counter.accuracy().is_one(),
        counter.correct == 0 && counter.wrong.total() > 0 ==> counter.accuracy().is_zero(),
{
}

} // verus!
