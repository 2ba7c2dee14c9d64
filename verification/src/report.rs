//! Reports: the counters of one language by length class, and the reports of
//! all languages together.

use vstd::prelude::*;
use vstd::seq_lib::lemma_fold_left_permutation;
use crate::counter::Counter;
use crate::counter::CounterView;
use crate::counter::DetectionOutcome;
use crate::lang::Lang;
use crate::ratio::mean_views;
use crate::ratio::GrandMean;
use crate::ratio::Mean;
use crate::ratio::Ratio;
use crate::size::Size;

verus! {

/// One evaluated sample: its length class and what the detector said of it.
pub struct Sample {
    pub size: Size,
    pub outcome: DetectionOutcome,
}

/// What a `LangReport` holds: the language of its samples and one counter
/// for each length class.
pub struct LangReportView {
    pub lang: Lang,
    pub under20: CounterView,
    pub under50: CounterView,
    pub under100: CounterView,
    pub over100: CounterView,
}

impl LangReportView {
    /// The report on `lang` before any sample.
    pub open spec fn empty(lang: Lang) -> LangReportView {
        LangReportView {
            lang,
            under20: CounterView::empty(),
            under50: CounterView::empty(),
            under100: CounterView::empty(),
            over100: CounterView::empty(),
        }
    }

    /// The counter of the length class `size`.
    pub open spec fn counter(self, size: Size) -> CounterView {
        match size {
            Size::Under20 => self.under20,
            Size::Under50 => self.under50,
            Size::Under100 => self.under100,
            Size::Over100 => self.over100,
        }
    }

    /// The report with `counter` in place of the counter of `size`.
    pub open spec fn with_counter(self, size: Size, counter: CounterView) -> LangReportView {
        match size {
            Size::Under20 => LangReportView { under20: counter, ..self },
            Size::Under50 => LangReportView { under50: counter, ..self },
            Size::Under100 => LangReportView { under100: counter, ..self },
            Size::Over100 => LangReportView { over100: counter, ..self },
        }
    }

    /// Every counter is well formed.
    pub open spec fn wf(self) -> bool {
        &&& self.under20.wf()
        &&& self.under50.wf()
        &&& self.under100.wf()
        &&& self.over100.wf()
    }

    /// Number of samples counted, over all length classes.
    pub open spec fn total(self) -> nat {
        self.under20.total() + self.under50.total() + self.under100.total() + self.over100.total()
    }

    /// One more correct answer in the class `size`.
    pub open spec fn inc_correct(self, size: Size, is_reliable: bool) -> LangReportView {
        self.with_counter(size, self.counter(size).inc_correct(is_reliable))
    }

    /// One more wrong answer in the class `size`.
    pub open spec fn inc_wrong(self, size: Size, lang: Option<Lang>, is_reliable: bool)
        -> LangReportView {
        self.with_counter(size, self.counter(size).inc_wrong(lang, is_reliable))
    }

    /// One more sample: its answer is counted in the class of its length,
    /// as correct where it names the language of the report.
    pub open spec fn record(self, sample: Sample) -> LangReportView {
        self.with_counter(
            sample.size,
            self.counter(sample.size).record(self.lang, sample.outcome),
        )
    }

    /// The samples `samples`, counted one after the other.
    pub open spec fn record_all(self, samples: Seq<Sample>) -> LangReportView {
        samples.fold_left(self, |r: LangReportView, s: Sample| r.record(s))
    }

    /// The accuracies of the four length classes, in ascending order of length.
    pub open spec fn accuracies(self) -> Seq<Ratio> {
        seq![
            self.under20.accuracy(),
            self.under50.accuracy(),
            self.under100.accuracy(),
            self.over100.accuracy(),
        ]
    }
}

/// The counters of one language, one for each length class.
pub struct LangReport {
    lang: Lang,
    under20: Counter,
    under50: Counter,
    under100: Counter,
    over100: Counter,
}

impl View for LangReport {
    type V = LangReportView;

    closed spec fn view(&self) -> LangReportView {
        LangReportView {
            lang: self.lang,
            under20: self.under20@,
            under50: self.under50@,
            under100: self.under100@,
            over100: self.over100@,
        }
    }
}

impl LangReport {
    /// Every counter of the report is well formed.
    pub open spec fn wf(self) -> bool {
        self@.wf()
    }

    /// The report on `lang` before any sample.
    pub fn new(lang: Lang) -> (report: LangReport)
        ensures
            report.wf(),
            report@ == LangReportView::empty(lang),
            report@.total() == 0,
    {
        LangReport {
            lang,
            under20: Counter::new(),
            under50: Counter::new(),
            under100: Counter::new(),
            over100: Counter::new(),
        }
    }

    /// The language of the samples.
    pub fn lang(&self) -> (lang: Lang)
        ensures
            lang == self@.lang,
    {
        self.lang
    }

    /// The counter of the length class `size`.
    pub fn counter(&self, size: Size) -> (counter: &Counter)
        ensures
            counter@ == self@.counter(size),
            self.wf() ==> counter.wf(),
    {
        match size {
            Size::Under20 => &self.under20,
            Size::Under50 => &self.under50,
            Size::Under100 => &self.under100,
            Size::Over100 => &self.over100,
        }
    }

    /// Counts one correct answer in the class `size`.
    pub fn inc_correct(&mut self, size: Size, is_reliable: bool)
        requires
            old(self).wf(),
            old(self)@.counter(size).total() < u32::MAX,
        ensures
            final(self).wf(),
            final(self)@ == old(self)@.inc_correct(size, is_reliable),
    {
        match size {
            Size::Under20 => self.under20.inc_correct(is_reliable),
            Size::Under50 => self.under50.inc_correct(is_reliable),
            Size::Under100 => self.under100.inc_correct(is_reliable),
            Size::Over100 => self.over100.inc_correct(is_reliable),
        }
    }

    /// Counts one wrong answer in the class `size`, which named `lang_opt`.
    pub fn inc_wrong(&mut self, size: Size, lang_opt: Option<Lang>, is_reliable: bool)
        requires
            old(self).wf(),
            old(self)@.counter(size).total() < u32::MAX,
        ensures
            final(self).wf(),
            final(self)@ == old(self)@.inc_wrong(size, lang_opt, is_reliable),
    {
        match size {
            Size::Under20 => self.under20.inc_wrong(lang_opt, is_reliable),
            Size::Under50 => self.under50.inc_wrong(lang_opt, is_reliable),
            Size::Under100 => self.under100.inc_wrong(lang_opt, is_reliable),
            Size::Over100 => self.over100.inc_wrong(lang_opt, is_reliable),
        }
    }

    /// Counts the answer `outcome` for a sample of the class `size`: as
    /// correct where it names the language of the report, as wrong in every
    /// other case.
    pub fn record(&mut self, size: Size, outcome: DetectionOutcome)
        requires
            old(self).wf(),
            old(self)@.counter(size).total() < u32::MAX,
        ensures
            final(self).wf(),
            final(self)@ == old(self)@.record(Sample { size, outcome }),
            final(self)@.total() == old(self)@.total() + 1,
    {
        let lang = self.lang;
        match size {
            Size::Under20 => self.under20.record(lang, outcome),
            Size::Under50 => self.under50.record(lang, outcome),
            Size::Under100 => self.under100.record(lang, outcome),
            Size::Over100 => self.over100.record(lang, outcome),
        }
    }

    /// The share of correct answers in the class `size`.
    pub fn accuracy_for_size(&self, size: Size) -> (r: Ratio)
        requires
            self.wf(),
        ensures
            r == self@.counter(size).accuracy(),
            r.num == self@.counter(size).correct,
            r.den == self@.counter(size).total(),
    {
        self.counter(size).accuracy()
    }

    /// The share of correct answers among the answers of the class `size`
    /// that the detector called reliable.
    pub fn reliable_accuracy_for_size(&self, size: Size) -> (r: Ratio)
        requires
            self.wf(),
        ensures
            r == self@.counter(size).reliable_accuracy(),
            r.num == self@.counter(size).reliable_correct,
            r.den == self@.counter(size).reliable_total(),
    {
        self.counter(size).reliable_accuracy()
    }

    /// The unweighted mean of the accuracies of the four length classes:
    /// each class has the same weight, however many samples fell into it.
    pub fn avg_accuracy(&self) -> (mean: Mean)
        requires
            self.wf(),
        ensures
            mean@ == self@.accuracies(),
    {
        let mut terms: Vec<Ratio> = Vec::new();
        terms.push(self.under20.accuracy());
        terms.push(self.under50.accuracy());
        terms.push(self.under100.accuracy());
        terms.push(self.over100.accuracy());
        let mean = Mean { terms };
        assert(mean@ =~= self@.accuracies());
        mean
    }
}

/// The view of each report of a list.
pub open spec fn views(reports: Seq<LangReport>) -> Seq<LangReportView> {
    reports.map_values(|r: LangReport| r@)
}

/// The views of the reports that a list of results holds, in their order.
pub open spec fn kept(results: Seq<Option<LangReport>>) -> Seq<LangReportView> {
    results.filter_map(
        |result: Option<LangReport>|
            match result {
                Some(report) => Some(report@),
                None => None,
            },
    )
}

/// The reports of all languages of a run, in the order of the run.
pub struct OverallReport {
    lang_reports: Vec<LangReport>,
}

impl View for OverallReport {
    type V = Seq<LangReportView>;

    closed spec fn view(&self) -> Seq<LangReportView> {
        views(self.lang_reports@)
    }
}

impl OverallReport {
    /// Every report is well formed.
    pub open spec fn wf(self) -> bool {
        forall|i: int| 0 <= i < self@.len() ==> (#[trigger] self@[i]).wf()
    }

    /// The accuracies of the class `size`, one of each language.
    pub open spec fn accuracies_for_size(reports: Seq<LangReportView>, size: Size) -> Seq<Ratio> {
        reports.map_values(|r: LangReportView| r.counter(size).accuracy())
    }

    /// The accuracies of the four classes, of each language.
    pub open spec fn accuracies(reports: Seq<LangReportView>) -> Seq<Seq<Ratio>> {
        reports.map_values(|r: LangReportView| r.accuracies())
    }

    /// The overall report of `lang_reports`, in their order.
    pub fn new(lang_reports: Vec<LangReport>) -> (overall: OverallReport)
        ensures
            overall@ == views(lang_reports@),
    {
        OverallReport { lang_reports }
    }

    /// The overall report of a run in which the evaluation of some languages
    /// may have failed: `results` holds for each language of the run its
    /// report, or `None`. The reports that there are are kept, in their
    /// order; a language without one is left out.
    pub fn from_results(results: Vec<Option<LangReport>>) -> (overall: OverallReport)
        requires
            forall|i: int|
                0 <= i < results.len() ==> ((#[trigger] results[i]) matches Some(report)
                    ==> report.wf()),
        ensures
            overall@ == kept(results@),
            overall.wf(),
    {
        let ghost all = results@;
        let mut reports: Vec<LangReport> = Vec::new();
        for result in it: results.into_iter()
            invariant
                it.seq() == all,
                forall|i: int|
                    0 <= i < all.len() ==> ((#[trigger] all[i]) matches Some(report)
                        ==> report.wf()),
                views(reports@) == kept(all.take(it.index() as int)),
                forall|j: int| 0 <= j < reports.len() ==> (#[trigger] reports[j]).wf(),
        {
            let ghost before = reports@;
            let ghost n = it.index() as int;
            proof {
                assert(all.take(n + 1).drop_last() =~= all.take(n));
                assert(all.take(n + 1).last() == result);
                assert(all[n] == result);
            }
            match result {
                Some(report) => {
                    reports.push(report);
                    proof {
                        assert(views(reports@) =~= views(before) + seq![report@]);
                    }
                },
                None => {},
            }
        }
        proof {
            assert(all.take(all.len() as int) =~= all);
        }
        let overall = OverallReport { lang_reports: reports };
        proof {
            assert forall|j: int| 0 <= j < overall@.len() implies (#[trigger] overall@[j]).wf() by {
                assert(reports[j].wf());
            }
        }
        overall
    }

    /// Number of languages.
    pub fn len(&self) -> (n: usize)
        ensures
            n == self@.len(),
    {
        self.lang_reports.len()
    }

    /// The reports of the languages.
    pub fn lang_reports(&self) -> (reports: &Vec<LangReport>)
        ensures
            views(reports@) == self@,
    {
        &self.lang_reports
    }

    /// The mean, over the languages, of the accuracy of the class `size`:
    /// each language has the same weight.
    pub fn avg_for_size(&self, size: Size) -> (mean: Mean)
        requires
            self.wf(),
        ensures
            mean@ == OverallReport::accuracies_for_size(self@, size),
    {
        let mut terms: Vec<Ratio> = Vec::new();
        for i in 0..self.lang_reports.len()
            invariant
                self.wf(),
                terms@ == OverallReport::accuracies_for_size(self@.take(i as int), size),
        {
            assert(self@[i as int].wf());
            terms.push(self.lang_reports[i].accuracy_for_size(size));
            assert(terms@ =~= OverallReport::accuracies_for_size(self@.take(i + 1), size));
        }
        assert(self@.take(self@.len() as int) =~= self@);
        Mean { terms }
    }

    /// The mean, over the languages, of the mean accuracy of each language:
    /// each language has the same weight, and within a language each class.
    pub fn avg_accuracy(&self) -> (mean: GrandMean)
        requires
            self.wf(),
        ensures
            mean@ == OverallReport::accuracies(self@),
    {
        let mut means: Vec<Mean> = Vec::new();
        for i in 0..self.lang_reports.len()
            invariant
                self.wf(),
                means@.len() == i,
                mean_views(means@) == OverallReport::accuracies(self@.take(i as int)),
        {
            let ghost before = means@;
            assert(self@[i as int].wf());
            means.push(self.lang_reports[i].avg_accuracy());
            assert forall|j: int| 0 <= j < i + 1 implies mean_views(means@)[j]
                == OverallReport::accuracies(self@.take(i + 1))[j] by {
                if j < i {
                    assert(mean_views(before)[j] == OverallReport::accuracies(
                        self@.take(i as int),
                    )[j]);
                }
            }
            assert(mean_views(means@) =~= OverallReport::accuracies(self@.take(i + 1)));
        }
        assert(self@.take(self@.len() as int) =~= self@);
        GrandMean { means }
    }
}

/// Two samples can be counted in either order.
pub proof fn record_commutes(report: LangReportView, a: Sample, b: Sample)
    ensures
        report.record(a).record(b) == report.record(b).record(a),
{
    crate::counter::record_commutes(report.counter(a.size), report.lang, a.outcome, b.outcome);
}

/// A report does not depend on the order in which its samples were counted:
/// two sequences with the same samples, each as often in one as in the
/// other, leave the same counters.
pub proof fn recording_is_order_independent(
    report: LangReportView,
    first: Seq<Sample>,
    second: Seq<Sample>,
)
    requires
        first.to_multiset() == second.to_multiset(),
    ensures
        report.record_all(first) == report.record_all(second),
{
    let step = |r: LangReportView, s: Sample| r.record(s);
    assert forall|a: Sample, b: Sample, r: LangReportView| #[trigger]
        step(step(r, a), b) == step(step(r, b), a) by {
        record_commutes(r, a, b);
    }
    lemma_fold_left_permutation(first, second, step, report);
}

} // verus!
