use trivia::game::{
    answer, stats_update, weighted, AnswerError, Answered, GameState, JokerError, NextQuestionError,
    QuestionError, StatsUpdate, NANOS_PER_SEC, QUESTION_WINDOW, REWARD,
};
use trivia::session::SessionStore;
use trivia::models::{Category, CategoryId, Question, QuestionId, RepositoryError};

fn category(id: i32, name: &str) -> Category {
    Category { id, name: name.to_string() }
}

fn question(id: i32, category_id: i32, correct: &str, incorrect: [&str; 3]) -> Question {
    Question {
        id,
        category_id,
        string: format!("question {}", id),
        correct: correct.to_string(),
        incorrect: [incorrect[0].to_string(), incorrect[1].to_string(), incorrect[2].to_string()],
    }
}

fn capital_question() -> Question {
    question(7, 1, "Paris", ["Lyon", "Nice", "Lille"])
}

fn game_with_open_question() -> GameState {
    let mut game = GameState::new("Tom".to_string(), vec![category(1, "Geography")]);
    assert!(game.load_more_questions(Ok(vec![capital_question()])).is_ok());
    assert!(game.next_question().is_ok());
    game
}

#[test]
fn cannot_skip_question() {
    let mut game_state = GameState::default();

    // there is no question at this point, but that's irrelevant
    let _ = game_state.next_question();

    match game_state.next_question() {
        Err(NextQuestionError::HasNotAnswered) => {}
        _ => panic!(),
    }
}

#[test]
fn fresh_game_cannot_skip() {
    let mut game = GameState::new("Tom".to_string(), vec![category(1, "Geography")]);
    assert!(matches!(game.next_question(), Err(NextQuestionError::NoneRemaining)));
    assert!(matches!(game.next_question(), Err(NextQuestionError::HasNotAnswered)));
}

#[test]
fn next_question_pairs_question_with_category() {
    let mut game = GameState::new("Tom".to_string(), vec![category(3, "Art"), category(1, "Geography")]);
    game.load_more_questions(Ok(vec![capital_question()])).unwrap();
    let (cat, q) = game.next_question().unwrap();
    assert_eq!(cat.name, "Geography");
    assert_eq!(q.correct, "Paris");
    assert_eq!(game.queued(), 0);
}

#[test]
fn next_question_without_category_is_none_remaining() {
    let mut game = GameState::new("Tom".to_string(), vec![category(3, "Art")]);
    game.load_more_questions(Ok(vec![capital_question()])).unwrap();
    assert!(matches!(game.next_question(), Err(NextQuestionError::NoneRemaining)));
    assert!(game.current_question().is_none());
}

#[test]
fn joker_works_once() {
    let mut game = game_with_open_question();
    let picked = game.use_joker().unwrap();
    let incorrect = ["Lyon", "Nice", "Lille"];
    assert!(incorrect.contains(&picked[0]));
    assert!(incorrect.contains(&picked[1]));
    assert_ne!(picked[0], picked[1]);
    assert!(!picked.contains(&"Paris"));
    assert!(!game.joker());
    assert!(matches!(game.next_question(), Err(NextQuestionError::HasNotAnswered)));
    assert!(matches!(game.use_joker(), Err(JokerError::AlreadyUsed)));
}

#[test]
fn joker_can_only_be_used_once() {
    let mut store = SessionStore::new();
    let token = store.create();
    store.insert(token, GameState::new("Tom".to_string(), vec![category(1, "Geography")]));

    let first = store.with_state(token, |mut g| {
        let r = g.use_joker().map(|_| ());
        (g, r)
    });
    assert!(matches!(first, Ok(Err(JokerError::NoQuestion))));

    let second = store.with_state(token, |mut g| {
        let r = g.use_joker().map(|_| ());
        (g, r)
    });

    assert_eq!(second.ok(), Some(Err(JokerError::AlreadyUsed)))
}

#[test]
fn load_splits_window_across_categories() {
    let mut game = GameState::new("Tom".to_string(), vec![category(1, "Science"), category(2, "History")]);
    let request = game.question_request();
    assert_eq!(QUESTION_WINDOW, 100);
    assert_eq!(request.per_category, 50);
    assert_eq!(request.categories, vec![CategoryId(1), CategoryId(2)]);
    assert!(request.excluded.is_empty());
    let science: Vec<Question> = (0..30).map(|i| question(100 + i, 1, "yes", ["a", "b", "c"])).collect();
    assert!(game.load_more_questions(Ok(science)).is_ok());
    assert_eq!(game.queued(), 30);
}

#[test]
fn load_with_no_categories_asks_for_nothing() {
    let game = GameState::new("Tom".to_string(), vec![]);
    assert_eq!(game.question_request().per_category, 0);
}

#[test]
fn load_of_nothing_is_none_remaining() {
    let mut game = GameState::new("Tom".to_string(), vec![category(1, "Science")]);
    assert!(matches!(game.load_more_questions(Ok(vec![])), Err(QuestionError::NoneRemaining)));
    // the next call may go ahead, and finds the queue empty
    assert!(matches!(game.next_question(), Err(NextQuestionError::NoneRemaining)));
}

#[test]
fn load_failure_is_query_error() {
    let mut game = GameState::new("Tom".to_string(), vec![category(1, "Science")]);
    let failed = game.load_more_questions(Err(RepositoryError { message: "down".to_string() }));
    match failed {
        Err(QuestionError::Query(e)) => assert_eq!(e.message, "down"),
        _ => panic!(),
    }
}

#[test]
fn answered_questions_are_not_loaded_again() {
    let mut game = game_with_open_question();
    let update = stats_update("Paris", &game).unwrap();
    assert!(matches!(update, StatsUpdate::AddCorrect(QuestionId(7))));
    answer("Paris", &mut game, Ok(())).unwrap();
    // moving on files question 7 as answered
    assert!(matches!(game.next_question(), Err(NextQuestionError::NoneRemaining)));
    assert_eq!(game.question_request().excluded, vec![QuestionId(7)]);
    let again = vec![capital_question()];
    assert!(matches!(game.load_more_questions(Ok(again)), Err(QuestionError::NoneRemaining)));
    let mixed = vec![capital_question(), question(8, 1, "Rome", ["Milan", "Turin", "Naples"])];
    assert!(game.load_more_questions(Ok(mixed)).is_ok());
    assert_eq!(game.queued(), 1);
    let (_, q) = game.next_question().unwrap();
    assert_eq!(q.id, 8);
}

#[test]
fn correct_answer_earns_reward() {
    let mut game = game_with_open_question();
    assert!(matches!(stats_update("Paris", &game), Ok(StatsUpdate::AddCorrect(QuestionId(7)))));
    let before = game.points();
    assert!(matches!(answer("Paris", &mut game, Ok(())), Ok(Answered::Correctly)));
    assert_eq!(REWARD, 30);
    assert_eq!(game.points(), before + 30);
}

#[test]
fn incorrect_answer_earns_nothing() {
    let mut game = game_with_open_question();
    assert!(matches!(stats_update("Lyon", &game), Ok(StatsUpdate::AddIncorrect(QuestionId(7)))));
    assert!(matches!(answer("Lyon", &mut game, Ok(())), Ok(Answered::Incorrectly)));
    assert_eq!(game.points(), 0);
    // the answer lets the game move on
    assert!(matches!(game.next_question(), Err(NextQuestionError::NoneRemaining)));
}

#[test]
fn answer_without_question() {
    let mut game = GameState::new("Tom".to_string(), vec![]);
    assert!(matches!(stats_update("Paris", &game), Err(AnswerError::NoQuestion)));
    assert!(matches!(answer("Paris", &mut game, Ok(())), Err(AnswerError::NoQuestion)));
}

#[test]
fn failed_stats_write_is_query_error() {
    let mut game = game_with_open_question();
    let r = answer("Paris", &mut game, Err(RepositoryError { message: "locked".to_string() }));
    assert!(matches!(r, Err(AnswerError::Query(_))));
    assert_eq!(game.points(), 0);
}

#[test]
fn weighted_points_under_a_second() {
    assert_eq!(weighted(90, 0), 90);
    assert_eq!(weighted(90, NANOS_PER_SEC - 1), 90);
    assert_eq!(weighted(90, NANOS_PER_SEC), 90);
    assert_eq!(weighted(90, 2 * NANOS_PER_SEC), 45);
    assert_eq!(weighted(90, 4 * NANOS_PER_SEC + 5), 22);
    assert!(weighted(90, 7 * NANOS_PER_SEC) <= weighted(90, 6 * NANOS_PER_SEC));
    assert_eq!(weighted(0, 3 * NANOS_PER_SEC), 0);
}

#[test]
fn fresh_game_weighted_points_are_points() {
    let mut game = game_with_open_question();
    answer("Paris", &mut game, Ok(())).unwrap();
    assert_eq!(game.weighted_points_after(0), 30);
    assert_eq!(game.weighted_points_after(3 * NANOS_PER_SEC), 10);
}

#[test]
fn score_records_all_categories_used() {
    let mut game = GameState::new("Tom".to_string(), vec![category(1, "Science"), category(2, "History")]);
    game.set_categories(vec![category(2, "History"), category(5, "Music")]);
    let score = game.score_at(std::time::SystemTime::UNIX_EPOCH, 2 * NANOS_PER_SEC + 1);
    assert_eq!(score.name, "Tom");
    assert_eq!(score.points, 0);
    assert_eq!(score.weighted_points, 0);
    assert_eq!(score.duration_secs, 2);
    assert_eq!(score.categories, vec![CategoryId(1), CategoryId(2), CategoryId(5)]);
    assert_eq!(game.question_request().categories, vec![CategoryId(2), CategoryId(5)]);
    let now = game.score();
    assert_eq!(now.categories.len(), 3);
}
