use accuracy_benchmark::counter::{Counter, DetectionOutcome, TOP_FALSE_DETECTIONS};
use accuracy_benchmark::wrong::WrongCounter;
use accuracy_benchmark::lang::{Lang, LANG_COUNT};
use accuracy_benchmark::ratio::Ratio;

fn lang(l: whatlang::Lang) -> Lang {
    Lang::new(l as usize).unwrap()
}

fn value(r: Ratio) -> f64 {
    r.num as f64 / r.den as f64
}

#[test]
fn a_new_counter_has_counted_nothing() {
    let c = Counter::new();
    assert_eq!(c.total(), 0);
    assert_eq!(c.correct(), 0);
    assert_eq!(c.reliable_total(), 0);
    assert_eq!(c.reliable_correct(), 0);
    assert_eq!(c.reliable_false_positives(), 0);
    assert_eq!(c.wrong().total(), 0);
    assert_eq!(c.wrong().none(), 0);
    for i in 0..LANG_COUNT {
        assert_eq!(c.wrong().count(Lang::new(i).unwrap()), 0);
    }
    assert_eq!(c.accuracy(), Ratio::new(0, 0));
    assert!(value(c.accuracy()).is_nan());
}

#[test]
fn the_default_counter_is_the_new_one() {
    let c = Counter::default();
    assert_eq!(c.total(), 0);
    assert_eq!(c.wrong().total(), 0);
    assert_eq!(c.reliable_total(), 0);
}

#[test]
fn total_is_correct_plus_wrong_after_every_step() {
    let mut c = Counter::new();
    let steps: Vec<(bool, Option<Lang>, bool)> = vec![
        (true, None, true),
        (false, Some(lang(whatlang::Lang::Rus)), false),
        (false, None, true),
        (true, None, false),
        (false, Some(lang(whatlang::Lang::Rus)), true),
        (false, Some(lang(whatlang::Lang::Cym)), false),
        (true, None, true),
    ];
    let mut n = 0;
    for (correct, named, reliable) in steps {
        if correct {
            c.inc_correct(reliable);
        } else {
            c.inc_wrong(named, reliable);
        }
        n += 1;
        assert_eq!(c.total(), n);
        assert_eq!(c.total(), c.correct() + c.wrong().total());
        assert_eq!(c.reliable_total(), c.reliable_correct() + c.reliable_false_positives());
        assert!(c.reliable_total() <= c.total());
    }
    assert_eq!(c.correct(), 3);
    assert_eq!(c.wrong().total(), 4);
    assert_eq!(c.reliable_correct(), 2);
    assert_eq!(c.reliable_false_positives(), 2);
    assert_eq!(c.wrong().count(lang(whatlang::Lang::Rus)), 2);
    assert_eq!(c.wrong().count(lang(whatlang::Lang::Cym)), 1);
    assert_eq!(c.wrong().count(lang(whatlang::Lang::Eng)), 0);
    assert_eq!(c.wrong().none(), 1);
    assert_eq!(c.accuracy(), Ratio::new(3, 7));
    assert_eq!(c.reliable_accuracy(), Ratio::new(2, 4));
}

#[test]
fn accuracy_is_one_without_wrong_answers() {
    let mut c = Counter::new();
    c.inc_correct(false);
    assert_eq!(c.accuracy(), Ratio::new(1, 1));
    assert_eq!(value(c.accuracy()), 1.0);
    c.inc_correct(true);
    c.inc_correct(true);
    assert_eq!(c.accuracy(), Ratio::new(3, 3));
    assert_eq!(value(c.accuracy()), 1.0);
}

#[test]
fn accuracy_is_zero_without_correct_answers() {
    let mut c = Counter::new();
    c.inc_wrong(None, false);
    assert_eq!(c.accuracy(), Ratio::new(0, 1));
    assert_eq!(value(c.accuracy()), 0.0);
    c.inc_wrong(Some(lang(whatlang::Lang::Deu)), true);
    assert_eq!(c.accuracy(), Ratio::new(0, 2));
    assert_eq!(value(c.accuracy()), 0.0);
}

#[test]
fn accuracy_is_correct_over_total() {
    let mut c = Counter::new();
    c.inc_correct(true);
    c.inc_wrong(None, false);
    c.inc_wrong(None, false);
    c.inc_wrong(None, true);
    assert_eq!(c.accuracy(), Ratio::new(1, 4));
    assert_eq!(value(c.accuracy()), 0.25);
    assert_eq!(c.reliable_accuracy(), Ratio::new(1, 2));
    assert_eq!(value(c.reliable_accuracy()), 0.5);
}

#[test]
fn reliable_accuracy_is_low_below_99_percent() {
    let mut c = Counter::new();
    // No reliable answer yet: the accuracy has no value, and is not low.
    c.inc_correct(false);
    assert!(!c.reliable_accuracy_is_low());
    for _ in 0..99 {
        c.inc_correct(true);
    }
    // 99 of 99.
    assert!(!c.reliable_accuracy_is_low());
    c.inc_wrong(None, true);
    // 99 of 100: exactly 99%.
    assert_eq!(c.reliable_accuracy(), Ratio::new(99, 100));
    assert!(!c.reliable_accuracy_is_low());
    c.inc_wrong(None, true);
    // 99 of 101.
    assert!(c.reliable_accuracy_is_low());
}

#[test]
fn wrong_answers_are_counted_by_the_language_named() {
    let mut w = WrongCounter::new();
    assert_eq!(w.total(), 0);
    w.add(None);
    w.add(Some(lang(whatlang::Lang::Epo)));
    w.add(Some(lang(whatlang::Lang::Cym)));
    w.add(Some(lang(whatlang::Lang::Cym)));
    w.add(None);
    w.add(None);
    assert_eq!(w.none(), 3);
    assert_eq!(w.count(lang(whatlang::Lang::Epo)), 1);
    assert_eq!(w.count(lang(whatlang::Lang::Cym)), 2);
    assert_eq!(w.count(lang(whatlang::Lang::Eng)), 0);
    assert_eq!(w.total(), 6);
    let mut by_lang = 0;
    for i in 0..LANG_COUNT {
        by_lang += w.count(Lang::new(i).unwrap());
    }
    assert_eq!(by_lang + w.none(), w.total());
}

#[test]
fn an_answer_is_correct_only_where_it_names_the_target() {
    let eng = lang(whatlang::Lang::Eng);
    let fra = lang(whatlang::Lang::Fra);
    let mut c = Counter::new();
    c.record(eng, DetectionOutcome { predicted: Some(eng), is_reliable: true });
    assert_eq!((c.correct(), c.reliable_correct(), c.wrong().total()), (1, 1, 0));
    c.record(eng, DetectionOutcome { predicted: Some(eng), is_reliable: false });
    assert_eq!((c.correct(), c.reliable_correct(), c.wrong().total()), (2, 1, 0));
    c.record(eng, DetectionOutcome { predicted: Some(fra), is_reliable: true });
    assert_eq!((c.correct(), c.wrong().total(), c.reliable_false_positives()), (2, 1, 1));
    assert_eq!(c.wrong().count(fra), 1);
    c.record(eng, DetectionOutcome { predicted: None, is_reliable: false });
    assert_eq!((c.correct(), c.wrong().total(), c.reliable_false_positives()), (2, 2, 1));
    assert_eq!(c.wrong().none(), 1);
    assert_eq!(c.total(), 4);
}

#[test]
fn top_two_of_a_tie_are_in_index_order() {
    // Counts {Rus: 5, Ukr: 5, Eng: 1}: the two with 5 come out, Rus first
    // because its index is the lower, in whatever order they were counted.
    let rus = lang(whatlang::Lang::Rus);
    let ukr = lang(whatlang::Lang::Ukr);
    let eng = lang(whatlang::Lang::Eng);
    assert!(rus.index() < ukr.index());
    let mut w = WrongCounter::new();
    for _ in 0..5 {
        w.add(Some(ukr));
    }
    w.add(Some(eng));
    for _ in 0..5 {
        w.add(Some(rus));
    }
    assert_eq!(w.top(2), vec![(rus, 5), (ukr, 5)]);

    let mut other = WrongCounter::new();
    for _ in 0..5 {
        other.add(Some(rus));
        other.add(Some(ukr));
    }
    other.add(Some(eng));
    assert_eq!(other.top(2), vec![(rus, 5), (ukr, 5)]);
}

#[test]
fn the_two_most_frequent_wrong_languages_come_with_their_shares() {
    // Wrong counts {Rus: 5, Ukr: 5, Eng: 1}, and 9 correct answers: 20 in all.
    let rus = lang(whatlang::Lang::Rus);
    let ukr = lang(whatlang::Lang::Ukr);
    let eng = lang(whatlang::Lang::Eng);
    let mut c = Counter::new();
    assert_eq!(c.top_false_detections(), Vec::<(Lang, Ratio)>::new());
    c.inc_wrong(Some(eng), false);
    assert_eq!(c.top_false_detections(), vec![(eng, Ratio::new(1, 1))]);
    for _ in 0..5 {
        c.inc_wrong(Some(ukr), true);
        c.inc_wrong(Some(rus), false);
    }
    for _ in 0..9 {
        c.inc_correct(true);
    }
    assert_eq!(c.total(), 20);
    assert_eq!(
        c.top_false_detections(),
        vec![(rus, Ratio::new(5, 20)), (ukr, Ratio::new(5, 20))]
    );
    assert_eq!(TOP_FALSE_DETECTIONS, 2);
    // One more for Ukrainian puts it first.
    c.inc_wrong(Some(ukr), false);
    assert_eq!(
        c.top_false_detections(),
        vec![(ukr, Ratio::new(6, 21)), (rus, Ratio::new(5, 21))]
    );
}

#[test]
fn top_ranks_by_count_then_by_index() {
    let epo = lang(whatlang::Lang::Epo);
    let eng = lang(whatlang::Lang::Eng);
    let deu = lang(whatlang::Lang::Deu);
    let cym = lang(whatlang::Lang::Cym);
    let mut w = WrongCounter::new();
    w.add(Some(cym));
    w.add(Some(cym));
    w.add(Some(cym));
    w.add(Some(eng));
    w.add(Some(deu));
    w.add(Some(deu));
    w.add(Some(epo));
    w.add(None);
    w.add(None);
    w.add(None);
    w.add(None);
    assert_eq!(w.top(0), Vec::<(Lang, u32)>::new());
    assert_eq!(w.top(1), vec![(cym, 3)]);
    assert_eq!(w.top(2), vec![(cym, 3), (deu, 2)]);
    assert_eq!(w.top(3), vec![(cym, 3), (deu, 2), (epo, 1)]);
    assert_eq!(w.top(4), vec![(cym, 3), (deu, 2), (epo, 1), (eng, 1)]);
    // No more than the languages that were named, and never the unnamed.
    assert_eq!(w.top(5), vec![(cym, 3), (deu, 2), (epo, 1), (eng, 1)]);
    assert_eq!(w.top(usize::MAX), vec![(cym, 3), (deu, 2), (epo, 1), (eng, 1)]);
}

#[test]
fn top_of_nothing_is_empty() {
    let mut w = WrongCounter::new();
    assert_eq!(w.top(2), Vec::<(Lang, u32)>::new());
    w.add(None);
    assert_eq!(w.top(2), Vec::<(Lang, u32)>::new());
}

#[test]
fn top_can_list_every_language() {
    let mut w = WrongCounter::new();
    for i in 0..LANG_COUNT {
        w.add(Some(Lang::new(i).unwrap()));
    }
    let all = w.top(LANG_COUNT);
    assert_eq!(all.len(), LANG_COUNT);
    for (i, entry) in all.iter().enumerate() {
        assert_eq!(*entry, (Lang::new(i).unwrap(), 1));
    }
    assert_eq!(w.top(2), vec![(Lang::new(0).unwrap(), 1), (Lang::new(1).unwrap(), 1)]);
}

#[test]
fn counters_do_not_depend_on_the_order_of_the_answers() {
    let eng = lang(whatlang::Lang::Eng);
    let outcomes = vec![
        DetectionOutcome { predicted: Some(eng), is_reliable: true },
        DetectionOutcome { predicted: Some(lang(whatlang::Lang::Nld)), is_reliable: true },
        DetectionOutcome { predicted: None, is_reliable: false },
        DetectionOutcome { predicted: Some(lang(whatlang::Lang::Deu)), is_reliable: false },
        DetectionOutcome { predicted: Some(eng), is_reliable: false },
        DetectionOutcome { predicted: Some(lang(whatlang::Lang::Nld)), is_reliable: false },
    ];
    let orders: Vec<Vec<usize>> = vec![
        vec![0, 1, 2, 3, 4, 5],
        vec![5, 4, 3, 2, 1, 0],
        vec![3, 0, 5, 1, 4, 2],
        vec![1, 5, 0, 4, 2, 3],
    ];
    let mut states = Vec::new();
    for order in orders {
        let mut c = Counter::new();
        for i in order {
            c.record(eng, outcomes[i]);
        }
        let mut by_lang = Vec::new();
        for i in 0..LANG_COUNT {
            by_lang.push(c.wrong().count(Lang::new(i).unwrap()));
        }
        states.push((
            c.correct(),
            c.reliable_correct(),
            c.reliable_false_positives(),
            c.wrong().none(),
            by_lang,
            c.wrong().top(2),
        ));
    }
    assert_eq!(states[0].0, 2);
    assert_eq!(states[0].1, 1);
    assert_eq!(states[0].2, 1);
    assert_eq!(states[0].3, 1);
    assert_eq!(states[0].5, vec![(lang(whatlang::Lang::Nld), 2), (lang(whatlang::Lang::Deu), 1)]);
    for state in &states {
        assert_eq!(*state, states[0]);
    }
}
