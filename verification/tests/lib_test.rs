use chrono::NaiveDate;
use metaculustetra::rational::Rational;
use metaculustetra::{HistoryPoint, Prediction, Question, QuestionKind, RealValue, Scale};

fn rat(num: i128, den: i128) -> Rational {
    Rational::new(num, den).unwrap()
}

fn day_secs(s: &str) -> i64 {
    NaiveDate::parse_from_str(s, "%Y-%m-%d")
        .unwrap()
        .and_hms_opt(0, 0, 0)
        .unwrap()
        .and_utc()
        .timestamp()
}

fn pt(day: &str, num: i128, den: i128) -> HistoryPoint {
    HistoryPoint {
        time: rat(day_secs(day) as i128, 1),
        value: rat(num, den),
    }
}

fn num_value(p: Prediction) -> Rational {
    match p.get_if_numeric().unwrap() {
        RealValue::Exact(r) => r,
        _ => panic!("expected an exact numeric value"),
    }
}

fn date_value(p: Prediction) -> Rational {
    match p.get_if_date().unwrap() {
        RealValue::Exact(r) => r,
        _ => panic!("expected an exact date value"),
    }
}

fn probability_example() -> Question {
    Question {
        title_short: "Global population to fall by >10% by 2100?".to_string(),
        prediction_timeseries: Some(vec![
            pt("2019-03-01", 38, 100),
            pt("2018-10-01", 2, 10),
            pt("2019-06-01", 2, 10),
        ]),
        metaculus_prediction: None,
        resolution: None,
        kind: QuestionKind::Binary,
        scale: None,
        resolve_time: None,
    }
}

fn resolved_probability_example() -> Question {
    Question {
        title_short: "Infrastructure package passed in 2021".to_string(),
        prediction_timeseries: Some(vec![
            pt("2021-02-01", 9, 10),
            pt("2021-10-01", 99, 100),
        ]),
        metaculus_prediction: Some(vec![pt("2021-10-01", 986684322309624, 1_000_000_000_000_000)]),
        resolution: Some(rat(1, 1)),
        kind: QuestionKind::Binary,
        scale: None,
        resolve_time: Some("2021-11-15T12:00:00Z".to_string()),
    }
}

fn resolved_range_example() -> Question {
    Question {
        title_short: "resolved range".to_string(),
        prediction_timeseries: Some(vec![pt("2021-05-01", 49337, 100000)]),
        metaculus_prediction: Some(vec![pt("2021-05-01", 49315, 100000)]),
        resolution: Some(rat(44, 100)),
        kind: QuestionKind::Continuous,
        scale: Some(Scale::NumericScale {
            min: rat(-20, 1),
            max: rat(30, 1),
            logarithmic: false,
        }),
        resolve_time: Some("2021-06-01T00:00:00Z".to_string()),
    }
}

fn range_example() -> Question {
    Question {
        title_short: "range".to_string(),
        prediction_timeseries: Some(vec![pt("2021-05-01", 1132, 10000)]),
        metaculus_prediction: None,
        resolution: None,
        kind: QuestionKind::Continuous,
        scale: Some(Scale::NumericScale {
            min: rat(0, 1),
            max: rat(1, 1),
            logarithmic: false,
        }),
        resolve_time: None,
    }
}

fn logarithmic_range_example() -> Question {
    Question {
        title_short: "logarithmic range".to_string(),
        prediction_timeseries: Some(vec![pt("2021-05-01", 41079, 100000)]),
        metaculus_prediction: None,
        resolution: None,
        kind: QuestionKind::Continuous,
        scale: Some(Scale::NumericScale {
            min: rat(1_000_000_000_000, 1),
            max: rat(100_000_000_000_000_000_000_000_000, 1),
            logarithmic: true,
        }),
        resolve_time: None,
    }
}

fn date_range_example() -> Question {
    Question {
        title_short: "date range".to_string(),
        prediction_timeseries: Some(vec![pt("2021-05-01", 27891, 100000)]),
        metaculus_prediction: None,
        resolution: None,
        kind: QuestionKind::Continuous,
        scale: Some(Scale::DateScale {
            min_date: "2021-01-15".to_string(),
            max_date: "2025-01-01".to_string(),
            logarithmic: false,
        }),
        resolve_time: None,
    }
}

fn logarithmic_date_range_example() -> Question {
    Question {
        title_short: "logarithmic date range".to_string(),
        prediction_timeseries: Some(vec![pt("2021-05-01", 70277, 100000)]),
        metaculus_prediction: None,
        resolution: None,
        kind: QuestionKind::Continuous,
        scale: Some(Scale::DateScale {
            min_date: "2020-03-27".to_string(),
            max_date: "2200-01-04".to_string(),
            logarithmic: true,
        }),
        resolve_time: None,
    }
}

fn discussion_example() -> Question {
    Question {
        title_short: "discussion".to_string(),
        prediction_timeseries: None,
        metaculus_prediction: None,
        resolution: None,
        kind: QuestionKind::Discussion,
        scale: None,
        resolve_time: None,
    }
}

fn ambiguously_resolved_example() -> Question {
    Question {
        title_short: "ambiguously resolved".to_string(),
        prediction_timeseries: Some(vec![pt("2020-05-01", 5, 100)]),
        metaculus_prediction: Some(vec![pt("2020-05-01", 5758051341132789, 100_000_000_000_000_000)]),
        resolution: Some(rat(-1, 1)),
        kind: QuestionKind::Binary,
        scale: None,
        resolve_time: Some("2020-06-01T00:00:00Z".to_string()),
    }
}

fn ambiguously_resolved_range_example() -> Question {
    Question {
        title_short: "ambiguously resolved range".to_string(),
        prediction_timeseries: Some(vec![pt("2020-05-01", 40749, 100000)]),
        metaculus_prediction: Some(vec![pt("2020-05-01", 3873, 10000)]),
        resolution: Some(rat(-1, 1)),
        kind: QuestionKind::Continuous,
        scale: Some(Scale::NumericScale {
            min: rat(0, 1),
            max: rat(100, 1),
            logarithmic: false,
        }),
        resolve_time: Some("2020-06-01T00:00:00Z".to_string()),
    }
}

fn tournament_example() -> Question {
    Question {
        title_short: "tournament".to_string(),
        prediction_timeseries: Some(vec![pt("2021-05-01", 3, 10)]),
        metaculus_prediction: Some(vec![]),
        resolution: None,
        kind: QuestionKind::Binary,
        scale: None,
        resolve_time: None,
    }
}

#[test]
fn lib_test_test_resolved_probability_question() {
    let question = resolved_probability_example();

    assert_eq!(question.title_short, "Infrastructure package passed in 2021");
    assert!(num_value(question.get_resolution().unwrap())
        .same_value(&rat(1, 1))
        .unwrap());
    assert!(num_value(question.get_community_prediction().unwrap())
        .same_value(&rat(99, 100))
        .unwrap());
    assert!(num_value(question.get_metaculus_prediction().unwrap())
        .same_value(&rat(986684322309624, 1_000_000_000_000_000))
        .unwrap());
    assert!(num_value(question.get_best_prediction().unwrap())
        .same_value(&rat(1, 1))
        .unwrap());
}

#[test]
fn lib_test_test_unresolved_probability_question() {
    let question = probability_example();

    assert_eq!(question.title_short, "Global population to fall by >10% by 2100?");
    assert_eq!(question.get_resolution(), None);
    assert!(num_value(question.get_community_prediction().unwrap())
        .same_value(&rat(2, 10))
        .unwrap());
    assert_eq!(question.get_metaculus_prediction(), None);
    assert!(num_value(question.get_best_prediction().unwrap())
        .same_value(&rat(2, 10))
        .unwrap());
}

#[test]
fn lib_test_test_resolved_range_question() {
    let question = resolved_range_example();
    assert!(num_value(question.get_resolution().unwrap())
        .same_value(&rat(2, 1))
        .unwrap());
    assert!(num_value(question.get_metaculus_prediction().unwrap())
        .same_value(&rat(46575, 10000))
        .unwrap());
    assert!(num_value(question.get_community_prediction().unwrap())
        .same_value(&rat(46685, 10000))
        .unwrap());
    assert!(num_value(question.get_best_prediction().unwrap())
        .same_value(&rat(2, 1))
        .unwrap());
}

#[test]
fn lib_test_test_range_question() {
    let question = range_example();
    assert!(num_value(question.get_community_prediction().unwrap())
        .same_value(&rat(1132, 10000))
        .unwrap());
    assert!(num_value(question.get_best_prediction().unwrap())
        .same_value(&rat(1132, 10000))
        .unwrap());
    assert_eq!(question.get_metaculus_prediction(), None);
    assert_eq!(question.get_resolution(), None);
}

#[test]
fn lib_test_test_logarithmic_range_question() {
    let question = logarithmic_range_example();

    let community_prediction = RealValue::GeomInterp {
        lo: rat(1_000_000_000_000, 1),
        hi: rat(100_000_000_000_000_000_000_000_000, 1),
        pos: rat(41079, 100000),
    };

    assert_eq!(
        question.get_best_prediction().unwrap(),
        Prediction::NumP(community_prediction)
    );
    assert_eq!(
        question.get_community_prediction().unwrap(),
        Prediction::NumP(community_prediction)
    );
}

#[test]
fn lib_test_test_date_range_question() {
    let question = date_range_example();

    let start_date = day_secs("2021-01-15") as i128;
    let end_date = day_secs("2025-01-01") as i128;

    let community_date = rat(27891 * (end_date - start_date) + 100000 * start_date, 100000);

    assert!(date_value(question.get_best_prediction().unwrap())
        .same_value(&community_date)
        .unwrap());
    assert!(date_value(question.get_community_prediction().unwrap())
        .same_value(&community_date)
        .unwrap());
}

#[test]
fn lib_test_test_logarithmic_date_range_question() {
    let question = logarithmic_date_range_example();

    let start_date = day_secs("2020-03-27") as i128;
    let end_date = day_secs("2200-01-04") as i128;

    let community_date = RealValue::GeomInterp {
        lo: rat(start_date, 1),
        hi: rat(end_date, 1),
        pos: rat(70277, 100000),
    };

    assert_eq!(
        question.get_best_prediction().unwrap(),
        Prediction::DatP(community_date)
    );
    assert_eq!(
        question.get_community_prediction().unwrap(),
        Prediction::DatP(community_date)
    );
}

#[test]
fn lib_test_test_discussion_question() {
    let question = discussion_example();
    assert_eq!(question.get_best_prediction(), None);
    assert_eq!(question.get_resolution(), None);
    assert_eq!(question.get_metaculus_prediction(), None);
    assert_eq!(question.get_community_prediction(), None);
}

#[test]
fn lib_test_test_ambiguously_resolved_question() {
    let question = ambiguously_resolved_example();
    assert_eq!(question.get_best_prediction().unwrap(), Prediction::AmbP);
    assert_eq!(question.get_resolution().unwrap(), Prediction::AmbP);
    assert!(num_value(question.get_community_prediction().unwrap())
        .same_value(&rat(5, 100))
        .unwrap());
    assert!(num_value(question.get_metaculus_prediction().unwrap())
        .same_value(&rat(5758051341132789, 100_000_000_000_000_000))
        .unwrap());
}

#[test]
fn lib_test_test_ambiguously_resolved_range_question() {
    let question = ambiguously_resolved_range_example();
    assert_eq!(question.get_best_prediction().unwrap(), Prediction::AmbP);
    assert_eq!(question.get_resolution().unwrap(), Prediction::AmbP);
    assert!(num_value(question.get_community_prediction().unwrap())
        .same_value(&rat(40749, 1000))
        .unwrap());
    assert!(num_value(question.get_metaculus_prediction().unwrap())
        .same_value(&rat(3873, 100))
        .unwrap());
}

#[test]
fn lib_test_test_unrevealed_question() {
    let question = tournament_example();
    assert!(num_value(question.get_best_prediction().unwrap())
        .same_value(&rat(3, 10))
        .unwrap());
    assert!(num_value(question.get_community_prediction().unwrap())
        .same_value(&rat(3, 10))
        .unwrap());
}

#[test]
fn test_get_if() {
    let ambiguous_prediction = Prediction::AmbP;
    let date_prediction =
        Prediction::DatP(RealValue::Exact(rat(day_secs("1954-03-02") as i128, 1)));
    let numerical_prediction = Prediction::NumP(RealValue::Exact(rat(42, 1)));

    assert_eq!(ambiguous_prediction.get_if_numeric(), None);
    assert_eq!(ambiguous_prediction.get_if_date(), None);

    assert_eq!(date_prediction.get_if_numeric(), None);
    assert_eq!(
        date_prediction.get_if_date(),
        Some(RealValue::Exact(rat(day_secs("1954-03-02") as i128, 1)))
    );

    assert_eq!(
        numerical_prediction.get_if_numeric(),
        Some(RealValue::Exact(rat(42, 1)))
    );
    assert_eq!(numerical_prediction.get_if_date(), None);
}

#[test]
fn test_get_community_prediction_before() {
    let question = probability_example();
    assert_eq!(
        question.get_community_prediction_before(day_secs("1945-01-01")),
        None
    );
    assert!(num_value(
        question
            .get_community_prediction_before(day_secs("2018-10-12"))
            .unwrap()
    )
    .same_value(&rat(2, 10))
    .unwrap());
    assert!(num_value(
        question
            .get_community_prediction_before(day_secs("2019-03-06"))
            .unwrap()
    )
    .same_value(&rat(38, 100))
    .unwrap());
    assert!(num_value(
        question
            .get_community_prediction_before(day_secs("2100-01-01"))
            .unwrap()
    )
    .same_value(&rat(2, 10))
    .unwrap());
}
