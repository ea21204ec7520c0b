use trivia::display::{get_json_pointer, pseudo_shuffle, DisplayData, RegisterError};
use trivia::models::Question;
use trivia::text::key_of;

#[test]
fn answers_are_ordered_by_key() {
    let mut items = vec!["b", "a", "ab"];
    pseudo_shuffle(&mut items);
    assert_eq!(items, vec!["a", "ab", "b"]);
}

#[test]
fn equal_keys_keep_their_order() {
    let mut items = vec!["c", "ba", "ab", "a"];
    pseudo_shuffle(&mut items);
    assert_eq!(items, vec!["ba", "ab", "a", "c"]);
}

#[test]
fn key_divides_by_bytes() {
    assert_eq!(key_of("ab"), (97 + 98) / 2);
    assert_eq!(key_of(""), 0);
    assert_eq!(key_of("é"), 0xe9 / 2);
}

#[test]
fn display_data_holds_all_answers() {
    let q = Question {
        id: 1,
        category_id: 1,
        string: "Capital of France?".to_string(),
        correct: "Paris".to_string(),
        incorrect: ["Lyon".to_string(), "Nice".to_string(), "Lille".to_string()],
    };
    let d = DisplayData::new(&q, "Geography", 60, true, 40, 12);
    assert_eq!(d.question, "Capital of France?");
    assert_eq!(d.category, "Geography");
    assert_eq!((d.points, d.joker, d.ratio, d.elapsed_secs), (60, true, 40, 12));
    let mut sorted = d.answers.clone();
    sorted.sort();
    assert_eq!(sorted, vec!["Lille", "Lyon", "Nice", "Paris"]);
    for w in d.answers.windows(2) {
        assert!(key_of(w[0]) <= key_of(w[1]));
    }
}

#[test]
fn json_pointer_of_dotted_key() {
    assert_eq!(get_json_pointer("user.name.first"), "/user/name/first");
    assert_eq!(get_json_pointer(""), "/");
    assert_eq!(get_json_pointer("plain"), "/plain");
}

#[test]
fn register_error_ids() {
    assert_eq!(RegisterError::NoError.id(), 0);
    assert_eq!(RegisterError::NameInUse.id(), 1);
    assert_eq!(RegisterError::Other.id(), 2);
    assert_eq!(RegisterError::from_id(1), RegisterError::NameInUse);
    assert_eq!(RegisterError::from_id(2), RegisterError::Other);
    assert_eq!(RegisterError::from_id(7), RegisterError::NoError);
}

#[test]
fn register_error_from_form_value() {
    assert_eq!(RegisterError::from_form_value("1").ok(), Some(RegisterError::NameInUse));
    assert_eq!(RegisterError::from_form_value("+2").ok(), Some(RegisterError::Other));
    assert_eq!(RegisterError::from_form_value("0").ok(), Some(RegisterError::NoError));
    assert_eq!(RegisterError::from_form_value("9").ok(), Some(RegisterError::NoError));
    assert!(RegisterError::from_form_value("x").is_err());
    assert!(RegisterError::from_form_value("").is_err());
    assert!(RegisterError::from_form_value("-1").is_err());
    assert!(RegisterError::from_form_value("4294967296").is_err());
}
