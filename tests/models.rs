use trivia::models::{Category, CategoryId, DurationSecs, Incorrect, NewQuestion, Question, QuestionId, ScoreCategories};

#[test]
fn incorrect_answers_are_padded() {
    let built = Incorrect::build(vec!["x".to_string()]);
    assert_eq!(built.into_answers(), ["x".to_string(), String::new(), String::new()]);
    let long = Incorrect::build(vec!["a".to_string(), "b".to_string(), "c".to_string(), "d".to_string()]);
    assert_eq!(long.0, ["a".to_string(), "b".to_string(), "c".to_string()]);
}

#[test]
fn duration_reads_seconds() {
    assert_eq!(DurationSecs::build(90), DurationSecs(90));
    assert_eq!(DurationSecs::build(-1), DurationSecs(u64::MAX));
}

#[test]
fn score_categories_are_ids() {
    assert_eq!(ScoreCategories::build(vec![3, 1]).0, vec![CategoryId(3), CategoryId(1)]);
}

#[test]
fn ids_and_categories() {
    let cat = Category { id: 4, name: "Music".to_string() };
    let q = Question {
        id: 9,
        category_id: 4,
        string: "?".to_string(),
        correct: "a".to_string(),
        incorrect: ["b".to_string(), "c".to_string(), "d".to_string()],
    };
    assert_eq!(cat.id(), CategoryId(4));
    assert_eq!(q.id(), QuestionId(9));
    assert_eq!(q.category_id(), CategoryId(4));
    assert!(q.is_of_category(&cat));
    let others = ["x".to_string()];
    let new = NewQuestion::with_category(&cat, "s", "c", &others);
    assert_eq!(new.category_id, 4);
    assert_eq!(new.incorrect.len(), 1);
}
