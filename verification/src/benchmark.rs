//! Evaluation: a detector is run over the samples of each language, and the
//! outcomes are counted into reports.

use vstd::prelude::*;
use vstd::seq_lib::lemma_fold_left_permutation;
use crate::detect::detect;
use crate::detect::outcome_of;
use crate::detect::MAX_SAMPLE_CHARS;
use crate::lang::all_langs;
use crate::lang::Lang;
use crate::lang::Library;
use crate::lang::Method;
use crate::report::kept;
use crate::report::LangReport;
use crate::report::LangReportView;
use crate::report::OverallReport;
use crate::report::Sample;
use crate::size::size;
use crate::size::Size;

verus! {

/// The texts of a list of sentences.
pub open spec fn texts(sentences: Seq<String>) -> Seq<Seq<char>> {
    sentences.map_values(|s: String| s@)
}

/// Whether a corpus can be evaluated: the number of its samples fits in
/// 32 bits, and no sample is longer than `MAX_SAMPLE_CHARS`.
pub open spec fn fits(corpus: Seq<Seq<char>>) -> bool {
    &&& corpus.len() <= u32::MAX
    &&& forall|i: int| 0 <= i < corpus.len() ==> (#[trigger] corpus[i]).len() <= MAX_SAMPLE_CHARS
}

/// What the evaluation of `text` yields: its length class, and the outcome
/// of the detector on it.
pub open spec fn sample_of(
    library: Library,
    target: Lang,
    method: Method,
    allowed: Seq<Lang>,
    text: Seq<char>,
) -> Sample {
    Sample {
        size: Size::of_len(text.len()),
        outcome: outcome_of(library, target, method, allowed, text),
    }
}

/// The report on `target` after the evaluation of `corpus`, sample by sample
/// from the first to the last.
pub open spec fn evaluate(
    library: Library,
    target: Lang,
    method: Method,
    allowed: Seq<Lang>,
    corpus: Seq<Seq<char>>,
) -> LangReportView {
    corpus.fold_left(
        LangReportView::empty(target),
        |report: LangReportView, text: Seq<char>|
            report.record(sample_of(library, target, method, allowed, text)),
    )
}

/// Evaluates the detector `library` on `sentences`, the samples of the
/// language `lang`: every sample is classified by its length, handed to the
/// detector once, and its outcome counted. `allowed` are the languages among
/// which `whatlang` may choose.
pub fn benchmark_lang(
    library: Library,
    lang: Lang,
    method: Method,
    allowed: &Vec<Lang>,
    sentences: &Vec<String>,
) -> (report: LangReport)
    requires
        fits(texts(sentences@)),
    ensures
        report.wf(),
        report@ == evaluate(library, lang, method, allowed@, texts(sentences@)),
        report@.total() == sentences.len(),
{
    let mut report = LangReport::new(lang);
    let ghost corpus = texts(sentences@);
    for i in 0..sentences.len()
        invariant
            corpus == texts(sentences@),
            fits(corpus),
            report.wf(),
            report@ == evaluate(library, lang, method, allowed@, corpus.take(i as int)),
            report@.total() == i,
    {
        let sentence = sentences[i].as_str();
        assert(sentence@ == corpus[i as int]);
        let size = size(sentence);
        let outcome = detect(library, lang, method, allowed, sentence);
        report.record(size, outcome);
        proof {
            assert(corpus.take(i + 1).drop_last() =~= corpus.take(i as int));
        }
    }
    proof {
        assert(corpus.take(corpus.len() as int) =~= corpus);
    }
    report
}

/// The languages of a run: those that were named; where none was named,
/// those of the script that was named; and where neither was, all languages.
pub open spec fn selection(named: Option<Seq<Lang>>, of_script: Option<Seq<Lang>>) -> Seq<Lang> {
    match named {
        Some(langs) => langs,
        None => match of_script {
            Some(langs) => langs,
            None => all_langs(),
        },
    }
}

/// Chooses the languages of a run from what was asked for: `named` are the
/// languages asked for by name, `of_script` those of the script asked for.
pub fn select_langs(named: Option<Vec<Lang>>, of_script: Option<Vec<Lang>>) -> (langs: Vec<Lang>)
    ensures
        langs@ == selection(
            match named {
                Some(v) => Some(v@),
                None => None,
            },
            match of_script {
                Some(v) => Some(v@),
                None => None,
            },
        ),
{
    match named {
        Some(langs) => langs,
        None => match of_script {
            Some(langs) => langs,
            None => Lang::all(),
        },
    }
}

/// A request of a run: a language, and its corpus where one could be loaded.
pub type Request = (Lang, Option<Seq<Seq<char>>>);

/// The requests of a run: each language with its corpus. A language for
/// which `corpora` holds nothing has none.
pub open spec fn requests(langs: Seq<Lang>, corpora: Seq<Option<Vec<String>>>) -> Seq<Request> {
    Seq::new(
        langs.len(),
        |i: int|
            (
                langs[i],
                if i < corpora.len() {
                    match corpora[i] {
                        Some(sentences) => Some(texts(sentences@)),
                        None => None,
                    }
                } else {
                    None
                },
            ),
    )
}

/// The report on the language of a request, where its corpus could be loaded.
pub open spec fn report_of(
    library: Library,
    method: Method,
    allowed: Seq<Lang>,
    request: Request,
) -> Option<LangReportView> {
    match request.1 {
        Some(corpus) => Some(evaluate(library, request.0, method, allowed, corpus)),
        None => None,
    }
}

/// The reports of a run over `requests`: one for each language whose corpus
/// could be loaded, in the order of the requests. A language without a
/// corpus is skipped and leaves the reports of the others as they are.
pub open spec fn reports_of(
    library: Library,
    method: Method,
    allowed: Seq<Lang>,
    requests: Seq<Request>,
) -> Seq<LangReportView> {
    requests.filter_map(|request: Request| report_of(library, method, allowed, request))
}

/// Results that hold for each request its report give the reports of the run.
proof fn kept_are_reports(
    library: Library,
    method: Method,
    allowed: Seq<Lang>,
    requests: Seq<Request>,
    results: Seq<Option<LangReport>>,
)
    requires
        results.len() == requests.len(),
        forall|i: int|
            0 <= i < results.len() ==> match #[trigger] results[i] {
                Some(report) => Some(report@),
                None => None,
            } == report_of(library, method, allowed, requests[i]),
    ensures
        kept(results) == reports_of(library, method, allowed, requests),
    decreases results.len(),
{
    if results.len() > 0 {
        kept_are_reports(library, method, allowed, requests.drop_last(), results.drop_last());
        assert(results.last() == results[results.len() - 1]);
    }
}

/// Evaluates the detector `library` on every language of `langs`, in their
/// order. `corpora` holds for each language, at the same position, its
/// samples, or `None` where they could not be loaded: such a language is
/// skipped, and so is one for which `corpora` holds nothing. The languages of
/// `langs` are those among which `whatlang` may choose.
pub fn run(
    library: Library,
    langs: &Vec<Lang>,
    method: Method,
    corpora: &Vec<Option<Vec<String>>>,
) -> (overall: OverallReport)
    requires
        forall|i: int|
            0 <= i < corpora.len() ==> ((#[trigger] corpora[i]) matches Some(sentences) ==> fits(
                texts(sentences@),
            )),
    ensures
        overall.wf(),
        overall@ == reports_of(library, method, langs@, requests(langs@, corpora@)),
{
    let mut results: Vec<Option<LangReport>> = Vec::new();
    let ghost all = requests(langs@, corpora@);
    for i in 0..langs.len()
        invariant
            forall|i: int|
                0 <= i < corpora.len() ==> ((#[trigger] corpora[i]) matches Some(sentences)
                    ==> fits(texts(sentences@))),
            all == requests(langs@, corpora@),
            results.len() == i,
            forall|j: int|
                0 <= j < i ==> match #[trigger] results[j] {
                    Some(report) => Some(report@),
                    None => None,
                } == report_of(library, method, langs@, all[j]),
            forall|j: int|
                0 <= j < i ==> ((#[trigger] results[j]) matches Some(report) ==> report.wf()),
    {
        let result = if i < corpora.len() {
            match &corpora[i] {
                Some(sentences) => Some(
                    benchmark_lang(library, langs[i], method, langs, sentences),
                ),
                None => None,
            }
        } else {
            None
        };
        results.push(result);
    }
    proof {
        kept_are_reports(library, method, langs@, all, results@);
    }
    OverallReport::from_results(results)
}

/// The report of an evaluation does not depend on the order of the samples:
/// two corpora with the same texts, each as often in one as in the other,
/// give the same report.
pub proof fn evaluation_is_order_independent(
    library: Library,
    target: Lang,
    method: Method,
    allowed: Seq<Lang>,
    first: Seq<Seq<char>>,
    second: Seq<Seq<char>>,
)
    requires
        first.to_multiset() == second.to_multiset(),
    ensures
        evaluate(library, target, method, allowed, first) == evaluate(
            library,
            target,
            method,
            allowed,
            second,
        ),
{
    let step = |report: LangReportView, text: Seq<char>|
        report.record(sample_of(library, target, method, allowed, text));
    assert forall|a: Seq<char>, b: Seq<char>, r: LangReportView| #[trigger]
        step(step(r, a), b) == step(step(r, b), a) by {
        crate::report::record_commutes(
            r,
            sample_of(library, target, method, allowed, a),
            sample_of(library, target, method, allowed, b),
        );
    }
    lemma_fold_left_permutation(first, second, step, LangReportView::empty(target));
}

/// An evaluation is the counting of the samples that it yields.
pub proof fn evaluation_counts_its_samples(
    library: Library,
    target: Lang,
    method: Method,
    allowed: Seq<Lang>,
    corpus: Seq<Seq<char>>,
)
    ensures
        evaluate(library, target, method, allowed, corpus) == LangReportView::empty(
            target,
        ).record_all(
            corpus.map_values(|text: Seq<char>| sample_of(library, target, method, allowed, text)),
        ),
    decreases corpus.len(),
{
    let samples = corpus.map_values(
        |text: Seq<char>| sample_of(library, target, method, allowed, text),
    );
    if corpus.len() > 0 {
        evaluation_counts_its_samples(library, target, method, allowed, corpus.drop_last());
        assert(samples.drop_last() =~= corpus.drop_last().map_values(
            |text: Seq<char>| sample_of(library, target, method, allowed, text),
        ));
    }
}

/// Whether the corpus of a request could be loaded.
pub open spec fn is_loaded(request: Request) -> bool {
    request.1.is_some()
}

/// A run reports on exactly the languages whose corpus could be loaded: there
/// are as many reports as loaded corpora, whatever became of the others.
pub proof fn run_reports_loaded_corpora(
    library: Library,
    method: Method,
    allowed: Seq<Lang>,
    requests: Seq<Request>,
)
    ensures
        reports_of(library, method, allowed, requests).len() == requests.filter(
            |request: Request| is_loaded(request),
        ).len(),
        reports_of(library, method, allowed, requests).len() <= requests.len(),
    decreases requests.len(),
{
    reveal(Seq::filter);
    if requests.len() > 0 {
        run_reports_loaded_corpora(library, method, allowed, requests.drop_last());
    }
}

} // verus!
