//! Records of the question catalogue, as the repository hands them over.
use vstd::prelude::*;
use std::time::SystemTime;

verus! {

#[verifier::external_type_specification]
#[verifier::external_body]
pub struct ExSystemTime(SystemTime);

/// Answers shown with each question: one correct, the rest incorrect.
pub const NUM_ANSWERS: usize = 4;

/// Incorrect answers stored with each question.
pub const NUM_INCORRECT: usize = NUM_ANSWERS - 1;

/// Identifier of a category.
#[derive(Debug, Clone, Copy, PartialEq, Eq, Structural, Hash, PartialOrd, Ord)]
pub struct CategoryId(pub i32);

/// Identifier of a question.
#[derive(Debug, Clone, Copy, PartialEq, Eq, Structural, Hash, PartialOrd, Ord)]
pub struct QuestionId(pub i32);

/// A failure reported by the repository that holds the catalogue and the scores.
#[derive(Debug)]
pub struct RepositoryError {
    pub message: String,
}

#[derive(Debug)]
pub struct Question {
    pub id: i32,
    pub category_id: i32,
    pub string: String,
    pub correct: String,
    pub incorrect: [String; NUM_INCORRECT],
}

#[derive(Debug)]
pub struct QuestionStats {
    pub id: i32,
    pub question_id: i32,
    pub num_correct: i32,
    pub num_incorrect: i32,
}

#[derive(Debug)]
pub struct Category {
    pub id: i32,
    pub name: String,
}

#[derive(Debug)]
pub struct Admin {
    pub id: i32,
    pub name: String,
    pub password: String,
}

impl Category {
    pub fn id(&self) -> (r: CategoryId)
        ensures
            r == CategoryId(self.id),
    {
        CategoryId(self.id)
    }
}

impl Question {
    pub fn id(&self) -> (r: QuestionId)
        ensures
            r == QuestionId(self.id),
    {
        QuestionId(self.id)
    }

    pub fn category_id(&self) -> (r: CategoryId)
        ensures
            r == CategoryId(self.category_id),
    {
        CategoryId(self.category_id)
    }

    pub fn is_of_category(&self, cat: &Category) -> (r: bool)
        ensures
            r == (self.category_id == cat.id),
    {
        self.category_id == cat.id
    }
}

/// The record of a finished game, ready to be stored with the scores.
#[derive(Debug)]
pub struct NewScore<'a> {
    pub name: &'a str,
    pub points: i32,
    pub weighted_points: i32,
    pub played_on: SystemTime,
    pub duration_secs: i64,
    pub categories: Vec<CategoryId>,
}

/// The incorrect answers of a question as stored: a list read into exactly
/// `NUM_INCORRECT` answers.
#[derive(Debug)]
pub struct Incorrect(pub [String; NUM_INCORRECT]);

/// A length of time stored as whole seconds.
#[derive(Debug, Clone, Copy, PartialEq, Eq, Structural)]
pub struct DurationSecs(pub u64);

/// The category ids of a stored score.
#[derive(Debug)]
pub struct ScoreCategories(pub Vec<CategoryId>);

/// The stored answer `k` of `row`, or the empty text where the row is shorter.
pub open spec fn answer_at(row: Seq<String>, k: int) -> Seq<char> {
    if k < row.len() {
        row[k]@
    } else {
        Seq::<char>::empty()
    }
}

/// Takes the first item of `items`, or the empty text when there is none.
fn take_first(items: &mut Vec<String>) -> (r: String)
    ensures
        old(items)@.len() > 0 ==> r@ == old(items)@[0]@ && final(items)@ == old(items)@.drop_first(),
        old(items)@.len() == 0 ==> r@ == Seq::<char>::empty() && final(items)@ == old(items)@,
{
    if items.len() > 0 {
        let r = items.remove(0);
        assert(items@ =~= old(items)@.drop_first());
        r
    } else {
        String::new()
    }
}

impl Incorrect {
    /// The first `NUM_INCORRECT` answers of `row`, with empty ones where it is shorter.
    pub fn build(row: Vec<String>) -> (r: Incorrect)
        ensures
            forall|k: int| 0 <= k < NUM_INCORRECT ==> #[trigger] r.0[k]@ == answer_at(row@, k),
    {
        let mut answers = row;
        let a = take_first(&mut answers);
        let b = take_first(&mut answers);
        let c = take_first(&mut answers);
        let r = Incorrect([a, b, c]);
        assert forall|k: int| 0 <= k < NUM_INCORRECT implies #[trigger] r.0[k]@ == answer_at(row@, k) by {
            if k == 1 && row@.len() > 1 {
                assert(row@.drop_first()[0] == row@[1]);
            }
            if k == 2 && row@.len() > 2 {
                assert(row@.drop_first().drop_first()[0] == row@[2]);
            }
        }
        r
    }

    pub fn into_answers(self) -> (r: [String; NUM_INCORRECT])
        ensures
            r == self.0,
    {
        self.0
    }
}

impl DurationSecs {
    /// The stored number of seconds, read as unsigned.
    pub fn build(row: i64) -> (r: DurationSecs)
        ensures
            r.0 == row as u64,
    {
        DurationSecs(row as u64)
    }
}

impl ScoreCategories {
    /// The stored category numbers as ids, in order.
    pub fn build(row: Vec<i32>) -> (r: ScoreCategories)
        ensures
            r.0@.len() == row@.len(),
            forall|k: int| 0 <= k < row@.len() ==> #[trigger] r.0@[k] == CategoryId(row@[k]),
    {
        let mut ids: Vec<CategoryId> = Vec::new();
        let mut i: usize = 0;
        while i < row.len()
            invariant
                0 <= i <= row.len(),
                ids@.len() == i,
                forall|k: int| 0 <= k < i ==> #[trigger] ids@[k] == CategoryId(row@[k]),
            decreases row.len() - i,
        {
            ids.push(CategoryId(row[i]));
            i = i + 1;
        }
        ScoreCategories(ids)
    }
}

/// A question to be stored.
#[derive(Debug)]
pub struct NewQuestion<'a> {
    pub category_id: i32,
    pub string: &'a str,
    pub correct: &'a str,
    pub incorrect: &'a [String],
}

/// The zeroed statistics record stored with each new question.
#[derive(Debug, Clone, Copy, PartialEq, Eq, Structural)]
pub struct NewQuestionStats {
    pub question_id: i32,
}

/// A category to be stored.
#[derive(Debug)]
pub struct NewCategory<'a> {
    pub name: &'a str,
}

/// An administrator to be stored, with the encoded hash of the password.
#[derive(Debug)]
pub struct NewAdmin<'a> {
    pub name: &'a str,
    pub password: &'a str,
}

impl<'a> NewQuestion<'a> {
    /// A question of `category`.
    pub fn with_category(category: &Category, string: &'a str, correct: &'a str, incorrect: &'a [String]) -> (r: NewQuestion<'a>)
        ensures
            r.category_id == category.id,
            r.string == string,
            r.correct == correct,
            r.incorrect == incorrect,
    {
        NewQuestion { category_id: category.id, string, correct, incorrect }
    }
}

} // verus!
