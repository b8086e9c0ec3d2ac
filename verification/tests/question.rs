use typesafe_api::{ChoiceCriteria, NoulCriteria, Question, Text};

fn plain(s: &str) -> Text {
    Text::Plain(s.to_string())
}

fn text_str(t: &Text) -> &str {
    match t {
        Text::Plain(s) => s.as_str(),
        Text::Structured(_) => panic!("structured"),
    }
}

#[test]
fn text_from_string_and_value() {
    assert!(matches!(Text::from("x".to_string()), Text::Plain(s) if s == "x"));
    let v = serde_json::Value::Bool(true);
    assert!(matches!(Text::from(v), Text::Structured(serde_json::Value::Bool(true))));
}

#[test]
fn text_from_str_is_plain() {
    assert!(matches!(Text::from("hello"), Text::Plain(s) if s == "hello"));
    // A JSON string given as a value stays structured.
    let v = serde_json::Value::String("hello".to_string());
    assert!(matches!(Text::from(v), Text::Structured(serde_json::Value::String(s)) if s == "hello"));
}

#[test]
fn questions_clone_and_debug() {
    let q = Question::choice(plain("pick"), vec![("b".to_string(), None), ("a".to_string(), Some(plain("x")))]);
    let c = q.clone();
    assert_eq!(choice_entries(&c), choice_entries(&q));
    assert!(format!("{:?}", c).contains("Choice"));
    let t = Text::Structured(serde_json::Value::from(3));
    assert!(matches!(t.clone(), Text::Structured(v) if v == serde_json::Value::from(3)));
}

#[test]
fn noul_has_no_criteria() {
    match Question::noul(plain("Does this message convey urgency?")) {
        Question::Noul { instructions, criteria } => {
            assert_eq!(text_str(&instructions), "Does this message convey urgency?");
            assert!(criteria.is_none());
        }
        _ => panic!("not a noul"),
    }
}

#[test]
fn noul_with_criteria_sets_both() {
    match Question::noul_with_criteria(plain("q"), plain("yes means"), plain("no means")) {
        Question::Noul { criteria: Some(c), .. } => {
            assert_eq!(text_str(c.when_true.as_ref().unwrap()), "yes means");
            assert_eq!(text_str(c.when_false.as_ref().unwrap()), "no means");
        }
        _ => panic!("wrong shape"),
    }
}

#[test]
fn noul_criteria_default_is_empty() {
    let c = NoulCriteria::default();
    assert!(c.when_true.is_none() && c.when_false.is_none());
}

fn choice_entries(q: &Question) -> Vec<(String, Option<String>)> {
    match q {
        Question::Choice { criteria, .. } => criteria
            .entries()
            .iter()
            .map(|(k, v)| (k.clone(), v.as_ref().map(|t| text_str(t).to_string())))
            .collect(),
        _ => panic!("not a choice"),
    }
}

#[test]
fn choice_orders_options_by_name() {
    let q = Question::choice(
        plain("Which team should handle this"),
        vec![
            ("technical".to_string(), Some(plain("Bugs or integration problems"))),
            ("billing".to_string(), Some(plain("Payment or subscription issues"))),
            ("sales".to_string(), Some(plain("Pricing or account questions"))),
        ],
    );
    assert_eq!(
        choice_entries(&q),
        vec![
            ("billing".to_string(), Some("Payment or subscription issues".to_string())),
            ("sales".to_string(), Some("Pricing or account questions".to_string())),
            ("technical".to_string(), Some("Bugs or integration problems".to_string())),
        ]
    );
}

#[test]
fn choice_last_duplicate_wins() {
    let q = Question::choice(
        plain("pick"),
        vec![
            ("a".to_string(), Some(plain("first"))),
            ("b".to_string(), None),
            ("a".to_string(), Some(plain("second"))),
            ("b".to_string(), Some(plain("late"))),
            ("a".to_string(), None),
        ],
    );
    assert_eq!(
        choice_entries(&q),
        vec![("a".to_string(), None), ("b".to_string(), Some("late".to_string()))]
    );
}

#[test]
fn choice_matches_btreemap_order() {
    let names = ["zeta", "Alpha", "alpha", "", "ä", "a", "ab", "Z", "é", "10", "9"];
    let q = Question::choice(plain("x"), names.iter().map(|n| (n.to_string(), None)).collect());
    let map: std::collections::BTreeMap<String, Option<String>> =
        names.iter().map(|n| (n.to_string(), None)).collect();
    let expected: Vec<(String, Option<String>)> = map.into_iter().collect();
    assert_eq!(choice_entries(&q), expected);
}

#[test]
fn choice_criteria_insert_and_len() {
    let mut c = ChoiceCriteria::new();
    assert_eq!(c.len(), 0);
    c.insert("b".to_string(), None);
    c.insert("a".to_string(), Some(plain("x")));
    c.insert("b".to_string(), Some(plain("y")));
    assert_eq!(c.len(), 2);
    let keys: Vec<&str> = c.entries().iter().map(|(k, _)| k.as_str()).collect();
    assert_eq!(keys, vec!["a", "b"]);
}

#[test]
fn score_keeps_levels_in_order() {
    let q = Question::score(
        plain("How frustrated the customer appears"),
        vec![plain("Calm, just stating facts"), plain("Frustrated but civil"), plain("Very angry, strong language")],
    );
    match q {
        Question::Score { criteria, .. } => {
            let levels: Vec<&str> = criteria.iter().map(text_str).collect();
            assert_eq!(levels, vec!["Calm, just stating facts", "Frustrated but civil", "Very angry, strong language"]);
        }
        _ => panic!("not a score"),
    }
}

#[test]
fn clones_keep_descriptions() {
    let mut c = ChoiceCriteria::new();
    c.insert("b".to_string(), Some(plain("second")));
    c.insert("a".to_string(), Some(Text::Structured(serde_json::Value::from(1))));
    c.insert("c".to_string(), None);
    let d = c.clone();
    let original: Vec<String> = c.entries().iter().map(|e| format!("{:?}", e)).collect();
    let copy: Vec<String> = d.entries().iter().map(|e| format!("{:?}", e)).collect();
    assert_eq!(original, copy);
    let q = Question::score(plain("s"), vec![plain("low"), plain("high")]);
    match q.clone() {
        Question::Score { criteria, .. } => {
            assert_eq!(criteria.iter().map(text_str).collect::<Vec<_>>(), vec!["low", "high"])
        }
        _ => panic!("not a score"),
    }
    let n = Question::noul_with_criteria(plain("q"), plain("t"), plain("f"));
    assert_eq!(format!("{:?}", n.clone()), format!("{:?}", n));
}
