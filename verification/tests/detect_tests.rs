use accuracy_benchmark::counter::DetectionOutcome;
use accuracy_benchmark::detect::{detect, whatlang_outcome, whichlang_outcome};
use accuracy_benchmark::lang::{Lang, Library, Method, LANG_COUNT};
use whatlang::dev::{detect_with_options, FilterList, Options};

const ENGLISH: &str = "The quick brown fox jumps over the lazy dog while the children are playing in the garden.";
const RUSSIAN: &str = "Съешь же ещё этих мягких французских булок, да выпей чаю, мой дорогой друг.";
const GERMAN: &str = "Die Kinder spielen heute im Garten, während die Eltern das Abendessen vorbereiten.";
const FRENCH: &str = "Les enfants jouent dans le jardin pendant que leurs parents préparent le dîner.";

fn lang(l: whatlang::Lang) -> Lang {
    Lang::new(l as usize).unwrap()
}

fn theirs(method: Method) -> whatlang::dev::Method {
    match method {
        Method::Trigram => whatlang::dev::Method::Trigram,
        Method::Alphabet => whatlang::dev::Method::Alphabet,
        Method::Combined => whatlang::dev::Method::Combined,
    }
}

/// What whatlang itself answers, as an outcome.
fn expected(text: &str, method: Method, allowed: &[whatlang::Lang]) -> DetectionOutcome {
    let options = Options::new()
        .set_method(theirs(method))
        .set_filter_list(FilterList::Allow(allowed.to_vec()));
    match detect_with_options(text, &options) {
        Some(info) => DetectionOutcome {
            predicted: Some(lang(info.lang())),
            is_reliable: info.is_reliable(),
        },
        None => DetectionOutcome { predicted: None, is_reliable: false },
    }
}

#[test]
fn languages_are_numbered_as_whatlang_numbers_them() {
    assert_eq!(LANG_COUNT, whatlang::Lang::all().len());
    let all = Lang::all();
    assert_eq!(all.len(), LANG_COUNT);
    for (i, theirs) in whatlang::Lang::all().iter().enumerate() {
        assert_eq!(*theirs as usize, i);
        assert_eq!(all[i].index(), i);
        assert_eq!(all[i], Lang::new(i).unwrap());
        assert_eq!(all[i].code(), theirs.code());
    }
    assert_eq!(Lang::new(LANG_COUNT), None);
    assert_eq!(Lang::new(usize::MAX), None);
}

#[test]
fn codes_are_iso_639_3() {
    assert_eq!(lang(whatlang::Lang::Epo).code(), "epo");
    assert_eq!(lang(whatlang::Lang::Eng).code(), "eng");
    assert_eq!(lang(whatlang::Lang::Rus).code(), "rus");
    assert_eq!(lang(whatlang::Lang::Cym).code(), "cym");
    assert_eq!(Lang::new(0).unwrap().code(), "epo");
    assert_eq!(Lang::new(69).unwrap().code(), "cym");
}

#[test]
fn an_answer_of_whatlang_is_taken_as_it_is() {
    let eng = lang(whatlang::Lang::Eng);
    assert_eq!(
        whatlang_outcome(Some((eng, true))),
        DetectionOutcome { predicted: Some(eng), is_reliable: true }
    );
    assert_eq!(
        whatlang_outcome(Some((eng, false))),
        DetectionOutcome { predicted: Some(eng), is_reliable: false }
    );
    assert_eq!(whatlang_outcome(None), DetectionOutcome { predicted: None, is_reliable: false });
}

#[test]
fn an_answer_of_whichlang_names_the_target_or_nothing() {
    let eng = lang(whatlang::Lang::Eng);
    assert_eq!(
        whichlang_outcome(eng, &"eng".to_string(), &"eng".to_string()),
        DetectionOutcome { predicted: Some(eng), is_reliable: true }
    );
    assert_eq!(
        whichlang_outcome(eng, &"eng".to_string(), &"fra".to_string()),
        DetectionOutcome { predicted: None, is_reliable: true }
    );
    assert_eq!(
        whichlang_outcome(eng, &"eng".to_string(), &"".to_string()),
        DetectionOutcome { predicted: None, is_reliable: true }
    );
}

#[test]
fn whatlang_tells_clear_samples_apart() {
    let theirs_allowed = [
        whatlang::Lang::Eng,
        whatlang::Lang::Rus,
        whatlang::Lang::Deu,
        whatlang::Lang::Fra,
    ];
    let allowed: Vec<Lang> = theirs_allowed.iter().map(|l| lang(*l)).collect();
    let cases = [
        (ENGLISH, whatlang::Lang::Eng),
        (RUSSIAN, whatlang::Lang::Rus),
        (GERMAN, whatlang::Lang::Deu),
        (FRENCH, whatlang::Lang::Fra),
    ];
    for method in [Method::Trigram, Method::Alphabet, Method::Combined] {
        for (text, language) in cases {
            let outcome = detect(Library::Whatlang, lang(language), method, &allowed, text);
            assert_eq!(outcome, expected(text, method, &theirs_allowed));
        }
    }
    for (text, language) in cases {
        let outcome = detect(Library::Whatlang, lang(language), Method::Trigram, &allowed, text);
        assert_eq!(outcome.predicted, Some(lang(language)));
    }
}

#[test]
fn whatlang_answers_nothing_for_a_text_without_letters() {
    let allowed = vec![lang(whatlang::Lang::Eng), lang(whatlang::Lang::Rus)];
    for text in ["", "   ", "12345 67890", "?!."] {
        let outcome = detect(Library::Whatlang, allowed[0], Method::Trigram, &allowed, text);
        assert_eq!(outcome, DetectionOutcome { predicted: None, is_reliable: false });
    }
}

#[test]
fn whatlang_chooses_among_the_allowed_languages_only() {
    // With English left out, an English text is taken for another language.
    let theirs_allowed = [whatlang::Lang::Deu, whatlang::Lang::Fra, whatlang::Lang::Nld];
    let allowed: Vec<Lang> = theirs_allowed.iter().map(|l| lang(*l)).collect();
    for method in [Method::Trigram, Method::Alphabet, Method::Combined] {
        let outcome = detect(Library::Whatlang, lang(whatlang::Lang::Eng), method, &allowed, ENGLISH);
        assert_eq!(outcome, expected(ENGLISH, method, &theirs_allowed));
        let named = outcome.predicted.unwrap();
        assert!(allowed.contains(&named));
    }
    // With one language of the script allowed, that one is the answer.
    let only = vec![lang(whatlang::Lang::Spa)];
    let outcome = detect(Library::Whatlang, only[0], Method::Trigram, &only, ENGLISH);
    assert_eq!(outcome, DetectionOutcome { predicted: Some(only[0]), is_reliable: true });
}

#[test]
fn the_method_is_handed_to_whatlang() {
    // Over many short texts the three methods do not all agree; each must
    // agree with whatlang run with the same method.
    let theirs_allowed: Vec<whatlang::Lang> = whatlang::Lang::all().to_vec();
    let allowed = Lang::all();
    let texts = [
        "I am begging pardon",
        "hello",
        "no",
        "si",
        "ja",
        "the",
        "Das ist gut",
        "na pewno",
        "да",
        "добре",
        "como estas",
        "tot ziens",
        "merci beaucoup",
        "Buna ziua",
    ];
    let mut differ = false;
    for text in texts {
        let mut outcomes = Vec::new();
        for method in [Method::Trigram, Method::Alphabet, Method::Combined] {
            let outcome = detect(Library::Whatlang, allowed[0], method, &allowed, text);
            assert_eq!(outcome, expected(text, method, &theirs_allowed));
            outcomes.push(outcome);
        }
        if outcomes[0] != outcomes[1] || outcomes[1] != outcomes[2] {
            differ = true;
        }
    }
    assert!(differ);
}

#[test]
fn whichlang_is_right_where_its_code_is_that_of_the_target() {
    let allowed: Vec<Lang> = Vec::new();
    let cases = [
        (ENGLISH, whatlang::Lang::Eng),
        (RUSSIAN, whatlang::Lang::Rus),
        (GERMAN, whatlang::Lang::Deu),
        (FRENCH, whatlang::Lang::Fra),
    ];
    for (text, language) in cases {
        assert_eq!(whichlang::detect_language(text).three_letter_code(), language.code());
        let target = lang(language);
        let outcome = detect(Library::WhichLang, target, Method::Trigram, &allowed, text);
        assert_eq!(outcome, DetectionOutcome { predicted: Some(target), is_reliable: true });
    }
    // The same answers, held against another target, are wrong; the wrong
    // language is not named, and the answer still counts as reliable.
    for (text, _) in cases {
        let target = lang(whatlang::Lang::Epo);
        let outcome = detect(Library::WhichLang, target, Method::Trigram, &allowed, text);
        assert_eq!(outcome, DetectionOutcome { predicted: None, is_reliable: true });
    }
}

#[test]
fn whichlang_takes_neither_method_nor_allowed_languages() {
    let eng = lang(whatlang::Lang::Eng);
    let none: Vec<Lang> = Vec::new();
    let only_rus = vec![lang(whatlang::Lang::Rus)];
    let first = detect(Library::WhichLang, eng, Method::Trigram, &none, ENGLISH);
    let second = detect(Library::WhichLang, eng, Method::Alphabet, &only_rus, ENGLISH);
    assert_eq!(first, second);
    assert_eq!(first.predicted, Some(eng));
}
