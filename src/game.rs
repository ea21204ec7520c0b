//! The state of one player's game and the rules that move it forward.
use vstd::prelude::*;
use std::collections::VecDeque;
use rand::seq::SliceRandom;
use std::time::SystemTime;
use crate::models::{Category, CategoryId, NewScore, Question, QuestionId, RepositoryError, NUM_INCORRECT};
use crate::stopwatch::{Stopwatch, StopwatchView};

verus! {

/// Points for a correct answer.
pub const REWARD: i32 = 30;

/// Number of questions one load asks for, split evenly across the categories.
pub const QUESTION_WINDOW: usize = 100;

/// Nanoseconds in a second.
pub const NANOS_PER_SEC: u128 = 1_000_000_000;

#[derive(Debug, Clone, Copy, PartialEq, Eq, Structural)]
pub enum NextQuestionError {
    HasNotAnswered,
    NoneRemaining,
}

#[derive(Debug, Clone, Copy, PartialEq, Eq, Structural)]
pub enum JokerError {
    AlreadyUsed,
    NoQuestion,
}

#[derive(Debug)]
pub enum QuestionError {
    Query(RepositoryError),
    NoneRemaining,
}

#[derive(Debug, Clone, Copy, PartialEq, Eq, Structural)]
pub enum Answered {
    Correctly,
    Incorrectly,
}

#[derive(Debug)]
pub enum AnswerError {
    Query(RepositoryError),
    NoQuestion,
}

/// What a game holds, as the rules see it.
pub ghost struct GameView {
    pub user: Seq<char>,
    pub categories: Seq<Category>,
    pub current: Option<Question>,
    pub can_proceed: bool,
    pub queue: Seq<Question>,
    pub points: int,
    pub joker: bool,
    pub answered: Seq<QuestionId>,
    pub total_categories: Seq<CategoryId>,
    pub clock: StopwatchView,
}

/// The first category in `cats` with the id `cid`.
pub open spec fn first_category(cats: Seq<Category>, cid: i32) -> Option<Category>
    decreases cats.len(),
{
    if cats.len() == 0 {
        None
    } else if cats[0].id == cid {
        Some(cats[0])
    } else {
        first_category(cats.drop_first(), cid)
    }
}

/// `acc` followed by the ids of `cats` that it does not hold yet, each once,
/// in order of first appearance.
pub open spec fn with_new_ids(acc: Seq<CategoryId>, cats: Seq<Category>) -> Seq<CategoryId>
    decreases cats.len(),
{
    if cats.len() == 0 {
        acc
    } else {
        let prev = with_new_ids(acc, cats.drop_last());
        let id = CategoryId(cats.last().id);
        if prev.contains(id) {
            prev
        } else {
            prev.push(id)
        }
    }
}

/// The questions of `batch` whose ids are not in `answered`, in order.
pub open spec fn unseen(batch: Seq<Question>, answered: Seq<QuestionId>) -> Seq<Question>
    decreases batch.len(),
{
    if batch.len() == 0 {
        seq![]
    } else {
        let prev = unseen(batch.drop_last(), answered);
        if answered.contains(QuestionId(batch.last().id)) {
            prev
        } else {
            prev.push(batch.last())
        }
    }
}

/// Questions asked per category when `n` categories are active.
pub open spec fn share_of_window(n: nat) -> nat {
    if n == 0 {
        0
    } else {
        QUESTION_WINDOW as nat / n
    }
}

/// Points divided by whole elapsed seconds, with fewer than one second counted as one.
pub open spec fn weighted_spec(points: int, elapsed_nanos: nat) -> int {
    let secs = elapsed_nanos / (NANOS_PER_SEC as nat);
    points / (if secs < 1 { 1 } else { secs as int })
}

impl GameView {
    /// The state of a game that was just set up.
    pub open spec fn fresh(user: Seq<char>, categories: Seq<Category>, clock: StopwatchView) -> GameView {
        GameView {
            user,
            categories,
            current: None,
            can_proceed: true,
            queue: seq![],
            points: 0,
            joker: true,
            answered: seq![],
            total_categories: with_new_ids(seq![], categories),
            clock,
        }
    }

    /// The state after a call of `next_question`.
    pub open spec fn after_next_question(self) -> GameView {
        if !self.can_proceed {
            self
        } else {
            GameView {
                can_proceed: false,
                answered: match self.current {
                    Some(q) => self.answered.push(QuestionId(q.id)),
                    None => self.answered,
                },
                current: if self.queue.len() > 0 {
                    Some(self.queue[0])
                } else {
                    None
                },
                queue: if self.queue.len() > 0 {
                    self.queue.drop_first()
                } else {
                    self.queue
                },
                ..self
            }
        }
    }

    /// What a call of `next_question` returns.
    pub open spec fn next_question_outcome(self) -> Result<(Category, Question), NextQuestionError> {
        if !self.can_proceed {
            Err(NextQuestionError::HasNotAnswered)
        } else {
            let after = self.after_next_question();
            match after.current {
                Some(q) => match first_category(after.categories, q.category_id) {
                    Some(c) => Ok((c, q)),
                    None => Err(NextQuestionError::NoneRemaining),
                },
                None => Err(NextQuestionError::NoneRemaining),
            }
        }
    }

    /// The state after `n` calls of `next_question`.
    pub open spec fn advanced(self, n: nat) -> GameView
        decreases n,
    {
        if n == 0 {
            self
        } else {
            self.advanced((n - 1) as nat).after_next_question()
        }
    }

    /// The state after a call of `use_joker`: the joker is spent, whatever the outcome.
    pub open spec fn after_use_joker(self) -> GameView {
        GameView { joker: false, ..self }
    }

    /// Whether a call of `use_joker` succeeds, and the error when it does not.
    pub open spec fn joker_outcome(self) -> Result<(), JokerError> {
        if !self.joker {
            Err(JokerError::AlreadyUsed)
        } else if self.current is None {
            Err(JokerError::NoQuestion)
        } else {
            Ok(())
        }
    }
}

/// What the repository is asked for when more questions are needed: up to
/// `per_category` questions of each category, none with an id in `excluded`.
#[derive(Debug)]
pub struct QuestionRequest {
    pub categories: Vec<CategoryId>,
    pub excluded: Vec<QuestionId>,
    pub per_category: i64,
}

/// The write to a question's answer statistics that an answer calls for.
#[derive(Debug, Clone, Copy, PartialEq, Eq, Structural)]
pub enum StatsUpdate {
    AddCorrect(QuestionId),
    AddIncorrect(QuestionId),
}

/// `items` and `picked` agree on the distinct positions `pos`.
pub open spec fn picked_from<'a>(items: Seq<String>, picked: Seq<&'a String>, pos: Seq<int>) -> bool {
    &&& pos.len() == picked.len()
    &&& pos.no_duplicates()
    &&& forall|k: int|
        0 <= k < picked.len() ==> 0 <= #[trigger] pos[k] < items.len() && *picked[k] == items[pos[k]]
}

/// Relies on `SliceRandom::choose_multiple` (rand): `amount` items, or all of
/// them when there are fewer, taken from distinct positions at random.
#[verifier::external_body]
fn choose_multiple<'a>(items: &'a [String; NUM_INCORRECT], amount: usize) -> (r: Vec<&'a String>)
    ensures
        r@.len() == if amount < items@.len() {
            amount as int
        } else {
            items@.len() as int
        },
        exists|pos: Seq<int>| picked_from(items@, r@, pos),
{
    items.choose_multiple(&mut rand::thread_rng(), amount).collect()
}

/// Relies on `SliceRandom::shuffle` (rand): the same questions in a random order.
#[verifier::external_body]
fn shuffle(items: &mut Vec<Question>)
    ensures
        final(items)@.to_multiset() == old(items)@.to_multiset(),
{
    items.shuffle(&mut rand::thread_rng());
}

/// Relies on `SystemTime::now`: the current wall-clock time.
#[verifier::external_body]
fn wall_clock_now() -> SystemTime {
    SystemTime::now()
}

/// Whole seconds in `nanos`, held at `i64::MAX`.
pub open spec fn duration_secs_spec(nanos: nat) -> int {
    let secs = nanos / (NANOS_PER_SEC as nat);
    if secs > i64::MAX {
        i64::MAX as int
    } else {
        secs as int
    }
}

/// Points weighted by time: `points` divided by the whole seconds in
/// `elapsed_nanos`, where less than one second counts as one.
pub fn weighted(points: i32, elapsed_nanos: u128) -> (r: i32)
    requires
        points >= 0,
    ensures
        r == weighted_spec(points as int, elapsed_nanos as nat),
        0 <= r <= points,
{
    let secs = elapsed_nanos / NANOS_PER_SEC;
    let divisor: u128 = if secs < 1 { 1 } else { secs };
    let q = (points as u128) / divisor;
    proof {
        vstd::arithmetic::div_mod::lemma_div_is_ordered_by_denominator(points as int, 1, divisor as int);
        vstd::arithmetic::div_mod::lemma_div_pos_is_pos(points as int, divisor as int);
    }
    q as i32
}

/// What a load adds to the queue never holds an answered question: no
/// question of `unseen(batch, answered)` has its id in `answered`.
pub proof fn unseen_excludes_answered(batch: Seq<Question>, answered: Seq<QuestionId>)
    ensures
        forall|k: int|
            0 <= k < unseen(batch, answered).len() ==> !answered.contains(
                QuestionId(#[trigger] unseen(batch, answered)[k].id),
            ),
    decreases batch.len(),
{
    if batch.len() > 0 {
        let prev = unseen(batch.drop_last(), answered);
        unseen_excludes_answered(batch.drop_last(), answered);
        assert forall|k: int| 0 <= k < prev.len() implies unseen(batch, answered)[k] == prev[k] by {}
    }
}

/// The per-session state of one game.
#[derive(Debug)]
pub struct GameState {
    user: String,
    categories: Vec<Category>,
    current_question: Option<Question>,
    can_proceed: bool,
    questions: VecDeque<Question>,
    points: Points,
    joker: bool,
    pub stopwatch: Stopwatch,
    answered: Vec<QuestionId>,
    total_categories: Vec<CategoryId>,
}

impl View for GameState {
    type V = GameView;

    closed spec fn view(&self) -> GameView {
        GameView {
            user: self.user@,
            categories: self.categories@,
            current: self.current_question,
            can_proceed: self.can_proceed,
            queue: self.questions@,
            points: self.points.value as int,
            joker: self.joker,
            answered: self.answered@,
            total_categories: self.total_categories@,
            clock: self.stopwatch@,
        }
    }
}

proof fn lemma_first_category_skip(cats: Seq<Category>, i: int, cid: i32)
    requires
        0 <= i < cats.len(),
        cats[i].id != cid,
    ensures
        first_category(cats.subrange(i, cats.len() as int), cid)
            == first_category(cats.subrange(i + 1, cats.len() as int), cid),
{
    assert(cats.subrange(i, cats.len() as int).drop_first() =~= cats.subrange(i + 1, cats.len() as int));
}

fn contains_category_id(ids: &Vec<CategoryId>, id: CategoryId) -> (r: bool)
    ensures
        r == ids@.contains(id),
{
    let mut i: usize = 0;
    while i < ids.len()
        invariant
            0 <= i <= ids.len(),
            forall|j: int| 0 <= j < i ==> ids@[j] != id,
        decreases ids.len() - i,
    {
        if ids[i] == id {
            return true;
        }
        i = i + 1;
    }
    false
}

fn contains_question_id(ids: &Vec<QuestionId>, id: QuestionId) -> (r: bool)
    ensures
        r == ids@.contains(id),
{
    let mut i: usize = 0;
    while i < ids.len()
        invariant
            0 <= i <= ids.len(),
            forall|j: int| 0 <= j < i ==> ids@[j] != id,
        decreases ids.len() - i,
    {
        if ids[i] == id {
            return true;
        }
        i = i + 1;
    }
    false
}

/// Adds to `acc` the ids of `cats` that it does not hold yet.
fn add_new_ids(acc: &mut Vec<CategoryId>, cats: &Vec<Category>)
    ensures
        final(acc)@ == with_new_ids(old(acc)@, cats@),
{
    let ghost start = acc@;
    let mut i: usize = 0;
    while i < cats.len()
        invariant
            0 <= i <= cats.len(),
            acc@ == with_new_ids(start, cats@.subrange(0, i as int)),
        decreases cats.len() - i,
    {
        assert(cats@.subrange(0, i as int + 1).drop_last() =~= cats@.subrange(0, i as int));
        let id = cats[i].id();
        if !contains_category_id(acc, id) {
            acc.push(id);
        }
        i = i + 1;
    }
    assert(cats@.subrange(0, cats.len() as int) =~= cats@);
}


/// A count of points, never negative.
#[derive(Debug, Clone, Copy)]
struct Points {
    value: i32,
}

impl Points {
    #[verifier::type_invariant]
    spec fn not_negative(&self) -> bool {
        self.value >= 0
    }

    fn zero() -> (r: Points)
        ensures
            r.value == 0,
    {
        Points { value: 0 }
    }

    fn get(self) -> (r: i32)
        ensures
            r == self.value,
            r >= 0,
    {
        proof {
            use_type_invariant(&self);
        }
        self.value
    }

    fn plus(self, n: i32) -> (r: Points)
        requires
            0 <= n,
            self.value + n <= i32::MAX,
        ensures
            r.value == self.value + n,
    {
        proof {
            use_type_invariant(&self);
        }
        Points { value: self.value + n }
    }
}

impl GameState {
    /// A game for `user` over `categories`: its clock runs, the joker is there,
    /// and the first call of `next_question` may go ahead.
    pub fn new(user: String, categories: Vec<Category>) -> (r: GameState)
        ensures
            r@ == GameView::fresh(user@, categories@, StopwatchView { running: true, accumulated: 0 }),
    {
        let mut total_categories: Vec<CategoryId> = Vec::new();
        add_new_ids(&mut total_categories, &categories);
        GameState {
            user,
            categories,
            current_question: None,
            can_proceed: true,
            questions: VecDeque::new(),
            points: Points::zero(),
            joker: true,
            stopwatch: Stopwatch::start(),
            answered: Vec::new(),
            total_categories,
        }
    }

    /// The open question with the first active category that it belongs to;
    /// `None` when no question is open or none of the categories is its own.
    pub fn current_question(&self) -> (r: Option<(&Category, &Question)>)
        ensures
            match self@.current {
                Some(q) => match first_category(self@.categories, q.category_id) {
                    Some(c) => r is Some && *r.unwrap().0 == c && *r.unwrap().1 == q,
                    None => r is None,
                },
                None => r is None,
            },
    {
        match &self.current_question {
            None => None,
            Some(q) => {
                let mut i: usize = 0;
                assert(self.categories@.subrange(0, self.categories@.len() as int) =~= self.categories@);
                while i < self.categories.len()
                    invariant
                        0 <= i <= self.categories.len(),
                        self.current_question == Some(*q),
                        first_category(self.categories@, q.category_id) == first_category(
                            self.categories@.subrange(i as int, self.categories@.len() as int),
                            q.category_id,
                        ),
                    decreases self.categories.len() - i,
                {
                    if q.is_of_category(&self.categories[i]) {
                        let ghost rest = self.categories@.subrange(i as int, self.categories@.len() as int);
                        assert(rest[0] == self.categories@[i as int]);
                        assert(first_category(rest, q.category_id) == Some(self.categories@[i as int]));
                        return Some((&self.categories[i], q));
                    }
                    proof {
                        lemma_first_category_skip(self.categories@, i as int, q.category_id);
                    }
                    i = i + 1;
                }
                assert(self.categories@.subrange(i as int, self.categories@.len() as int).len() == 0);
                None
            },
        }
    }

    /// Moves on to the next question of the queue, filing the open one (if any)
    /// as answered. Refused with `HasNotAnswered` until the open question has been
    /// answered or more questions were loaded; `NoneRemaining` when the queue is
    /// empty or the new question has no active category.
    pub fn next_question(&mut self) -> (r: Result<(&Category, &Question), NextQuestionError>)
        ensures
            final(self)@ == old(self)@.after_next_question(),
            match r {
                Ok((c, q)) => old(self)@.next_question_outcome() == Ok::<(Category, Question), NextQuestionError>((*c, *q)),
                Err(e) => old(self)@.next_question_outcome() == Err::<(Category, Question), NextQuestionError>(e),
            },
    {
        if !self.can_proceed {
            return Err(NextQuestionError::HasNotAnswered);
        }
        self.can_proceed = false;
        match &self.current_question {
            Some(q) => {
                let id = q.id();
                self.answered.push(id);
            },
            None => {},
        }
        self.current_question = self.questions.pop_front();
        match self.current_question() {
            Some(pair) => Ok(pair),
            None => Err(NextQuestionError::NoneRemaining),
        }
    }

    pub fn increment_points(&mut self)
        requires
            old(self)@.points + REWARD <= i32::MAX,
        ensures
            final(self)@ == (GameView { points: old(self)@.points + REWARD, ..old(self)@ }),
    {
        self.points = self.points.plus(REWARD);
    }

    pub fn points(&self) -> (r: i32)
        ensures
            r == self@.points,
            r >= 0,
    {
        self.points.get()
    }

    /// Whether the joker is still available.
    pub fn joker(&self) -> (r: bool)
        ensures
            r == self@.joker,
    {
        self.joker
    }

    /// Spends the joker and returns two of the open question's incorrect answers,
    /// picked at random from distinct positions. Refused with `AlreadyUsed` once
    /// the joker is spent; with `NoQuestion` when no question is open, in which
    /// case the joker is spent all the same.
    pub fn use_joker(&mut self) -> (r: Result<[&str; 2], JokerError>)
        ensures
            final(self)@ == old(self)@.after_use_joker(),
            r is Ok <==> old(self)@.joker_outcome() is Ok,
            r is Err ==> old(self)@.joker_outcome() == Err::<(), JokerError>(r->Err_0),
            r is Ok ==> exists|i: int, j: int|
                0 <= i < NUM_INCORRECT && 0 <= j < NUM_INCORRECT && i != j
                    && r->Ok_0[0]@ == old(self)@.current->0.incorrect@[i]@
                    && r->Ok_0[1]@ == old(self)@.current->0.incorrect@[j]@,
    {
        if !self.joker {
            return Err(JokerError::AlreadyUsed);
        }
        self.joker = false;
        match self.two_incorrect() {
            Some(pair) => Ok(pair),
            None => Err(JokerError::NoQuestion),
        }
    }

    fn two_incorrect(&self) -> (r: Option<[&str; 2]>)
        ensures
            r is Some <==> self@.current is Some,
            r is Some ==> exists|i: int, j: int|
                0 <= i < NUM_INCORRECT && 0 <= j < NUM_INCORRECT && i != j
                    && r->0[0]@ == self@.current->0.incorrect@[i]@
                    && r->0[1]@ == self@.current->0.incorrect@[j]@,
    {
        match &self.current_question {
            None => None,
            Some(q) => {
                let picked = choose_multiple(&q.incorrect, 2);
                let ghost pos = choose|pos: Seq<int>| picked_from(q.incorrect@, picked@, pos);
                assert(picked@.len() == 2);
                let first: &String = picked[0];
                let second: &String = picked[1];
                assert(pos[0] != pos[1]) by {
                    assert(pos.no_duplicates());
                }
                assert(0 <= pos[0] < NUM_INCORRECT && *first == q.incorrect@[pos[0]]);
                assert(0 <= pos[1] < NUM_INCORRECT && *second == q.incorrect@[pos[1]]);
                Some([first.as_str(), second.as_str()])
            },
        }
    }

    /// What to ask the repository for to refill the queue: an even share of
    /// the window per active category, leaving out every answered question.
    pub fn question_request(&self) -> (r: QuestionRequest)
        ensures
            r.categories@.len() == self@.categories.len(),
            forall|k: int|
                0 <= k < r.categories@.len() ==> #[trigger] r.categories@[k] == CategoryId(
                    self@.categories[k].id,
                ),
            r.excluded@ == self@.answered,
            r.per_category == share_of_window(self@.categories.len()),
    {
        let n = self.categories.len();
        let per_category: i64 = if n == 0 {
            0
        } else {
            (QUESTION_WINDOW / n) as i64
        };
        let mut categories: Vec<CategoryId> = Vec::new();
        let mut i: usize = 0;
        while i < n
            invariant
                0 <= i <= n,
                n == self.categories.len(),
                categories@.len() == i,
                forall|k: int| 0 <= k < i ==> #[trigger] categories@[k] == CategoryId(self.categories@[k].id),
            decreases n - i,
        {
            categories.push(self.categories[i].id());
            i = i + 1;
        }
        let mut excluded: Vec<QuestionId> = Vec::new();
        let mut j: usize = 0;
        while j < self.answered.len()
            invariant
                0 <= j <= self.answered.len(),
                excluded@ == self.answered@.subrange(0, j as int),
            decreases self.answered.len() - j,
        {
            excluded.push(self.answered[j]);
            j = j + 1;
            assert(excluded@ =~= self.answered@.subrange(0, j as int));
        }
        assert(self.answered@.subrange(0, self.answered.len() as int) =~= self.answered@);
        QuestionRequest { categories, excluded, per_category }
    }

    /// Takes in what the repository returned for `question_request`. Questions
    /// already answered are left out; the rest join the queue in a random order.
    /// `NoneRemaining` when nothing is left, `Query` when the repository failed.
    /// Either way the next call of `next_question` may go ahead.
    pub fn load_more_questions(&mut self, fetched: Result<Vec<Question>, RepositoryError>) -> (r: Result<(), QuestionError>)
        ensures
            match fetched {
                Err(e) => r == Err::<(), QuestionError>(QuestionError::Query(e))
                    && final(self)@ == (GameView { can_proceed: true, ..old(self)@ }),
                Ok(batch) => if unseen(batch@, old(self)@.answered).len() == 0 {
                    r == Err::<(), QuestionError>(QuestionError::NoneRemaining)
                        && final(self)@ == (GameView { can_proceed: true, ..old(self)@ })
                } else {
                    r is Ok && exists|added: Seq<Question>|
                        #[trigger] added.to_multiset() == unseen(batch@, old(self)@.answered).to_multiset()
                        && final(self)@ == (GameView {
                            can_proceed: true,
                            queue: old(self)@.queue + added,
                            ..old(self)@
                        })
                },
            },
            forall|k: int|
                old(self)@.queue.len() <= k < final(self)@.queue.len() ==> !old(self)@.answered.contains(
                    QuestionId(#[trigger] final(self)@.queue[k].id),
                ),
    {
        self.can_proceed = true;
        match fetched {
            Err(e) => Err(QuestionError::Query(e)),
            Ok(batch) => {
                let ghost fetched_batch = batch@;
                let mut batch = batch;
                let mut fresh: Vec<Question> = Vec::new();
                let n = batch.len();
                let mut i: usize = 0;
                while batch.len() > 0
                    invariant
                        n == fetched_batch.len(),
                        i + batch@.len() == fetched_batch.len(),
                        batch@ == fetched_batch.subrange(i as int, fetched_batch.len() as int),
                        fresh@ == unseen(fetched_batch.subrange(0, i as int), self.answered@),
                    decreases batch.len(),
                {
                    let q = batch.remove(0);
                    assert(fetched_batch.subrange(0, i as int + 1).drop_last() =~= fetched_batch.subrange(0, i as int));
                    if !contains_question_id(&self.answered, q.id()) {
                        fresh.push(q);
                    }
                    i = i + 1;
                    assert(batch@ =~= fetched_batch.subrange(i as int, fetched_batch.len() as int));
                }
                assert(fetched_batch.subrange(0, i as int) =~= fetched_batch);
                if fresh.len() == 0 {
                    return Err(QuestionError::NoneRemaining);
                }
                shuffle(&mut fresh);
                let ghost added = fresh@;
                let ghost before = self@;
                proof {
                    unseen_excludes_answered(fetched_batch, before.answered);
                    added.to_multiset_ensures();
                    unseen(fetched_batch, before.answered).to_multiset_ensures();
                    assert forall|k: int| 0 <= k < added.len() implies !before.answered.contains(
                        QuestionId(#[trigger] added[k].id),
                    ) by {
                        let q = added[k];
                        assert(added.contains(q));
                        assert(added.to_multiset().count(q) > 0);
                        assert(unseen(fetched_batch, before.answered).to_multiset().count(q) > 0);
                        assert(unseen(fetched_batch, before.answered).contains(q));
                    }
                }
                let m = fresh.len();
                let mut j: usize = 0;
                while fresh.len() > 0
                    invariant
                        m == added.len(),
                        j + fresh@.len() == added.len(),
                        fresh@ == added.subrange(j as int, added.len() as int),
                        self@ == (GameView { queue: before.queue + added.subrange(0, j as int), ..before }),
                    decreases fresh.len(),
                {
                    let q = fresh.remove(0);
                    self.questions.push_back(q);
                    j = j + 1;
                    assert(fresh@ =~= added.subrange(j as int, added.len() as int));
                    assert(self.questions@ =~= before.queue + added.subrange(0, j as int));
                }
                assert(added.subrange(0, j as int) =~= added);
                assert forall|k: int|
                    before.queue.len() <= k < self@.queue.len() implies !before.answered.contains(
                        QuestionId(#[trigger] self@.queue[k].id),
                    ) by {
                    assert(self@.queue[k] == added[k - before.queue.len()]);
                }
                Ok(())
            },
        }
    }

    /// Replaces the active categories; their ids join the categories used
    /// over the whole game.
    pub fn set_categories(&mut self, categories: Vec<Category>)
        ensures
            final(self)@ == (GameView {
                categories: categories@,
                total_categories: with_new_ids(old(self)@.total_categories, categories@),
                ..old(self)@
            }),
    {
        add_new_ids(&mut self.total_categories, &categories);
        self.categories = categories;
    }

    /// `weighted` for this game's points, given the elapsed time in nanoseconds.
    pub fn weighted_points_after(&self, elapsed_nanos: u128) -> (r: i32)
        ensures
            r == weighted_spec(self@.points, elapsed_nanos as nat),
    {
        weighted(self.points.get(), elapsed_nanos)
    }

    /// The points divided by the whole seconds on the stopwatch (at least one).
    pub fn weighted_points(&self) -> (r: i32)
        ensures
            exists|t: nat| t >= self@.clock.accumulated && r == weighted_spec(self@.points, t),
    {
        let elapsed = self.stopwatch.elapsed();
        self.weighted_points_after(elapsed)
    }

    /// The score record of this game, taken at `played_on` after `elapsed_nanos`.
    pub fn score_at(&self, played_on: SystemTime, elapsed_nanos: u128) -> (r: NewScore)
        ensures
            r.name@ == self@.user,
            r.points == self@.points,
            r.weighted_points == weighted_spec(self@.points, elapsed_nanos as nat),
            r.played_on == played_on,
            r.duration_secs == duration_secs_spec(elapsed_nanos as nat),
            r.categories@ == self@.total_categories,
    {
        let secs = elapsed_nanos / NANOS_PER_SEC;
        let duration_secs: i64 = if secs > i64::MAX as u128 {
            i64::MAX
        } else {
            secs as i64
        };
        let mut categories: Vec<CategoryId> = Vec::new();
        let mut j: usize = 0;
        while j < self.total_categories.len()
            invariant
                0 <= j <= self.total_categories.len(),
                categories@ == self.total_categories@.subrange(0, j as int),
            decreases self.total_categories.len() - j,
        {
            categories.push(self.total_categories[j]);
            j = j + 1;
            assert(categories@ =~= self.total_categories@.subrange(0, j as int));
        }
        assert(self.total_categories@.subrange(0, j as int) =~= self.total_categories@);
        NewScore {
            name: self.user.as_str(),
            points: self.points.get(),
            weighted_points: self.weighted_points_after(elapsed_nanos),
            played_on,
            duration_secs,
            categories,
        }
    }

    /// The score record of this game as of now, with one reading of the stopwatch
    /// for both the duration and the weighted points.
    pub fn score(&self) -> (r: NewScore)
        ensures
            r.name@ == self@.user,
            r.points == self@.points,
            r.categories@ == self@.total_categories,
            exists|t: nat|
                t >= self@.clock.accumulated && r.weighted_points == weighted_spec(self@.points, t)
                    && r.duration_secs == duration_secs_spec(t),
    {
        let elapsed = self.stopwatch.elapsed();
        self.score_at(wall_clock_now(), elapsed)
    }

    /// Number of questions waiting in the queue.
    pub fn queued(&self) -> (r: usize)
        ensures
            r == self@.queue.len(),
    {
        self.questions.len()
    }
}


/// What `answer` does to a game and returns, given the text of the answer and
/// how writing the answer statistics went.
pub open spec fn answer_outcome(
    g: GameView,
    given: Seq<char>,
    recorded: Result<(), RepositoryError>,
) -> (GameView, Result<Answered, AnswerError>) {
    match g.current {
        None => (g, Err(AnswerError::NoQuestion)),
        Some(q) => {
            let correct = given == q.correct@;
            match recorded {
                Err(e) => (GameView { can_proceed: true, ..g }, Err(AnswerError::Query(e))),
                Ok(()) => (
                    GameView {
                        can_proceed: true,
                        points: if correct {
                            g.points + REWARD
                        } else {
                            g.points
                        },
                        ..g
                    },
                    Ok(
                        if correct {
                            Answered::Correctly
                        } else {
                            Answered::Incorrectly
                        },
                    ),
                ),
            }
        },
    }
}

/// The statistics write that answering the open question with `answer` calls
/// for: the question's correct count when `answer` is its correct answer, its
/// incorrect count otherwise. `NoQuestion` when no question is open.
pub fn stats_update(answer: &str, game_state: &GameState) -> (r: Result<StatsUpdate, AnswerError>)
    ensures
        match game_state@.current {
            None => r matches Err(AnswerError::NoQuestion),
            Some(q) => if answer@ == q.correct@ {
                r == Ok::<StatsUpdate, AnswerError>(StatsUpdate::AddCorrect(QuestionId(q.id)))
            } else {
                r == Ok::<StatsUpdate, AnswerError>(StatsUpdate::AddIncorrect(QuestionId(q.id)))
            },
        },
{
    match &game_state.current_question {
        None => Err(AnswerError::NoQuestion),
        Some(q) => {
            if answer.to_owned() == q.correct {
                Ok(StatsUpdate::AddCorrect(q.id()))
            } else {
                Ok(StatsUpdate::AddIncorrect(q.id()))
            }
        },
    }
}

/// Answers the open question with `given`, once the write that `stats_update`
/// called for has been made and came back as `recorded`. A correct answer
/// earns `REWARD` points. Either way the game may move on, which after an
/// incorrect answer means to its end.
pub fn answer(given: &str, game_state: &mut GameState, recorded: Result<(), RepositoryError>) -> (r: Result<Answered, AnswerError>)
    requires
        old(game_state)@.points + REWARD <= i32::MAX,
    ensures
        (final(game_state)@, r) == answer_outcome(old(game_state)@, given@, recorded),
{
    let correct = match &game_state.current_question {
        None => return Err(AnswerError::NoQuestion),
        Some(q) => given.to_owned() == q.correct,
    };
    game_state.can_proceed = true;
    match recorded {
        Err(e) => Err(AnswerError::Query(e)),
        Ok(()) => {
            if correct {
                game_state.increment_points();
                Ok(Answered::Correctly)
            } else {
                Ok(Answered::Incorrectly)
            }
        },
    }
}

impl Default for GameState {
    /// An empty game that waits for questions: no categories, no joker, the
    /// clock paused at zero.
    fn default() -> (r: GameState)
        ensures
            r@ == (GameView {
                user: seq![],
                categories: seq![],
                current: None,
                can_proceed: false,
                queue: seq![],
                points: 0,
                joker: false,
                answered: seq![],
                total_categories: seq![],
                clock: StopwatchView { running: false, accumulated: 0 },
            }),
    {
        GameState {
            user: String::new(),
            categories: Vec::new(),
            current_question: None,
            can_proceed: false,
            questions: VecDeque::new(),
            points: Points::zero(),
            joker: false,
            stopwatch: Stopwatch::default(),
            answered: Vec::new(),
            total_categories: Vec::new(),
        }
    }
}

/// Two calls of `next_question` in a row, with no answer and no load between
/// them: the second is refused with `HasNotAnswered`, from any state, a fresh
/// game included.
pub proof fn no_skipping(g: GameView)
    ensures
        g.after_next_question().next_question_outcome() == Err::<(Category, Question), NextQuestionError>(
            NextQuestionError::HasNotAnswered,
        ),
{
}

/// `next_question` leaves the joker as it was.
pub proof fn next_question_keeps_joker(g: GameView, n: nat)
    ensures
        g.advanced(n).joker == g.joker,
    decreases n,
{
    if n > 0 {
        next_question_keeps_joker(g, (n - 1) as nat);
    }
}

/// The joker works once: with a question open, the first use succeeds, and a
/// second use after any number of `next_question` calls is refused with
/// `AlreadyUsed`.
pub proof fn joker_once(g: GameView, n: nat)
    requires
        g.joker,
        g.current is Some,
    ensures
        g.joker_outcome() == Ok::<(), JokerError>(()),
        g.after_use_joker().advanced(n).joker_outcome() == Err::<(), JokerError>(JokerError::AlreadyUsed),
{
    next_question_keeps_joker(g.after_use_joker(), n);
}

/// Under one second of play the weighted points are the points themselves.
pub proof fn weighted_under_a_second(points: int, elapsed_nanos: nat)
    requires
        points >= 0,
        elapsed_nanos < NANOS_PER_SEC,
    ensures
        weighted_spec(points, elapsed_nanos) == points,
{
    assert(elapsed_nanos / (NANOS_PER_SEC as nat) == 0) by {
        vstd::arithmetic::div_mod::lemma_basic_div(elapsed_nanos as int, NANOS_PER_SEC as int);
    }
}

/// For fixed points, the weighted points never grow as time passes.
pub proof fn weighted_non_increasing(points: int, earlier: nat, later: nat)
    requires
        points >= 0,
        earlier <= later,
    ensures
        weighted_spec(points, later) <= weighted_spec(points, earlier),
{
    let d = NANOS_PER_SEC as int;
    vstd::arithmetic::div_mod::lemma_div_is_ordered(earlier as int, later as int, d);
    let s1 = earlier as int / d;
    let s2 = later as int / d;
    let d1: int = if s1 < 1 { 1 } else { s1 };
    let d2: int = if s2 < 1 { 1 } else { s2 };
    vstd::arithmetic::div_mod::lemma_div_is_ordered_by_denominator(points, d1, d2);
}

} // verus!
