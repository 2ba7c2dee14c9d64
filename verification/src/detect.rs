//! The detectors under measurement, and what their answers mean.

use vstd::prelude::*;
use enum_map::Enum;
use whatlang::dev::detect_with_options;
use whatlang::dev::FilterList;
use whatlang::dev::Options;
use crate::counter::DetectionOutcome;
use crate::lang::iso_code;
use crate::lang::Lang;
use crate::lang::Library;
use crate::lang::Method;

verus! {

/// The longest sample, in characters, that is handed to a detector. Both
/// detectors count what they find in a text in 32 bits, and find up to three
/// things for each character; on this many characters the counts still fit.
pub const MAX_SAMPLE_CHARS: usize = 1_431_655_765;

/// What `whatlang::dev::detect_with_options` answers for `text`, with the
/// method `method` and the languages `allowed` as the only candidates: the
/// language and whether the answer is reliable, or nothing.
pub uninterp spec fn whatlang_detection(text: Seq<char>, method: Method, allowed: Seq<Lang>)
    -> Option<(Lang, bool)>;

/// What `whichlang::detect_language` answers for `text`: the three-letter
/// code of a language.
pub uninterp spec fn whichlang_detection(text: Seq<char>) -> Seq<char>;

/// `whatlang::dev::detect_with_options`, called on `text` with `Options` that
/// hold `method` and a `FilterList::Allow` of the languages of `allowed`.
/// The answer is handed on as the index of `Info::lang` and the flag
/// `Info::is_reliable`.
///
/// The contract claims that the answer depends on the text, the method and
/// the allowed languages alone, and that the call returns on every text of
/// at most `MAX_SAMPLE_CHARS` characters. The detection itself is not
/// described here.
#[verifier::external_body]
fn whatlang_detect(text: &str, method: Method, allowed: &Vec<Lang>) -> (found: Option<(Lang, bool)>)
    requires
        text@.len() <= MAX_SAMPLE_CHARS,
    ensures
        found == whatlang_detection(text@, method, allowed@),
{
    let allow = allowed.iter().map(|l| whatlang::Lang::from_usize(l.index)).collect();
    let method = match method {
        Method::Trigram => whatlang::dev::Method::Trigram,
        Method::Alphabet => whatlang::dev::Method::Alphabet,
        Method::Combined => whatlang::dev::Method::Combined,
    };
    let options = Options::new().set_method(method).set_filter_list(FilterList::Allow(allow));
    detect_with_options(text, &options).map(
        |info| (Lang { index: info.lang().into_usize() }, info.is_reliable()),
    )
}

/// `whichlang::detect_language`, called on `text`; the answer is handed on as
/// its `three_letter_code`.
///
/// The contract claims that the answer depends on the text alone, and that
/// the call returns on every text of at most `MAX_SAMPLE_CHARS` characters.
/// The detection itself is not described here.
#[verifier::external_body]
fn whichlang_detect(text: &str) -> (code: String)
    requires
        text@.len() <= MAX_SAMPLE_CHARS,
    ensures
        code@ == whichlang_detection(text@),
{
    whichlang::detect_language(text).three_letter_code().to_string()
}

/// The outcome that stands for an answer of `whatlang`: the language and the
/// reliability that it gave, and for no answer no language, not reliable.
pub open spec fn whatlang_outcome_of(found: Option<(Lang, bool)>) -> DetectionOutcome {
    match found {
        Some(answer) => DetectionOutcome { predicted: Some(answer.0), is_reliable: answer.1 },
        None => DetectionOutcome { predicted: None, is_reliable: false },
    }
}

/// The outcome that stands for an answer of `whichlang` on a sample in the
/// language `target`: the answer names `target` where its code is the code
/// of `target`, and no language in every other case. Every answer of
/// `whichlang` counts as reliable.
pub open spec fn whichlang_outcome_of(target: Lang, target_code: Seq<char>, code: Seq<char>)
    -> DetectionOutcome {
    if code == target_code {
        DetectionOutcome { predicted: Some(target), is_reliable: true }
    } else {
        DetectionOutcome { predicted: None, is_reliable: true }
    }
}

/// The outcome of `library` on `text`, a sample in the language `target`.
pub open spec fn outcome_of(
    library: Library,
    target: Lang,
    method: Method,
    allowed: Seq<Lang>,
    text: Seq<char>,
) -> DetectionOutcome {
    match library {
        Library::Whatlang => whatlang_outcome_of(whatlang_detection(text, method, allowed)),
        Library::WhichLang => whichlang_outcome_of(
            target,
            iso_code(target.rank()),
            whichlang_detection(text),
        ),
    }
}

/// The outcome that stands for an answer of `whatlang`.
pub fn whatlang_outcome(found: Option<(Lang, bool)>) -> (outcome: DetectionOutcome)
    ensures
        outcome == whatlang_outcome_of(found),
{
    match found {
        Some(answer) => DetectionOutcome { predicted: Some(answer.0), is_reliable: answer.1 },
        None => DetectionOutcome { predicted: None, is_reliable: false },
    }
}

/// The outcome that stands for an answer of `whichlang`, given by its code,
/// on a sample in the language `target`, whose code is `target_code`.
pub fn whichlang_outcome(target: Lang, target_code: &String, code: &String) -> (outcome:
    DetectionOutcome)
    ensures
        outcome == whichlang_outcome_of(target, target_code@, code@),
{
    if *code == *target_code {
        DetectionOutcome { predicted: Some(target), is_reliable: true }
    } else {
        DetectionOutcome { predicted: None, is_reliable: true }
    }
}

/// Runs the detector `library` on `text`, a sample in the language `target`.
/// `method` and `allowed` configure `whatlang`; `whichlang` takes neither.
pub fn detect(library: Library, target: Lang, method: Method, allowed: &Vec<Lang>, text: &str) -> (outcome:
    DetectionOutcome)
    requires
        text@.len() <= MAX_SAMPLE_CHARS,
    ensures
        outcome == outcome_of(library, target, method, allowed@, text@),
{
    match library {
        Library::Whatlang => whatlang_outcome(whatlang_detect(text, method, allowed)),
        Library::WhichLang => {
            let code = whichlang_detect(text);
            let target_code = target.code();
            whichlang_outcome(target, &target_code, &code)
        },
    }
}

} // verus!
