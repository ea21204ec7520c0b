//! What the pages show of a question, and small helpers of the page layer.
use vstd::prelude::*;
use std::num::ParseIntError;
use crate::models::Question;
use crate::text::{answer_key, decimal_u32, key_of, push_char, replaced};

verus! {

broadcast use vstd::seq_lib::lemma_multiset_commutative;

/// The texts of `items`.
pub open spec fn texts(items: Seq<&str>) -> Seq<Seq<char>> {
    items.map_values(|a: &str| a@)
}

/// The items are in order of `answer_key`, smallest first.
pub open spec fn sorted_by_key(items: Seq<Seq<char>>) -> bool {
    forall|i: int, j: int| 0 <= i < j < items.len() ==> answer_key(items[i]) <= answer_key(items[j])
}

/// The items of `items` whose `answer_key` is `k`, in order.
pub open spec fn with_key(items: Seq<Seq<char>>, k: nat) -> Seq<Seq<char>>
    decreases items.len(),
{
    if items.len() == 0 {
        seq![]
    } else {
        let prev = with_key(items.drop_last(), k);
        if answer_key(items.last()) == k {
            prev.push(items.last())
        } else {
            prev
        }
    }
}

proof fn lemma_with_key_concat(a: Seq<Seq<char>>, b: Seq<Seq<char>>, k: nat)
    ensures
        with_key(a + b, k) == with_key(a, k) + with_key(b, k),
    decreases b.len(),
{
    if b.len() == 0 {
        assert(a + b =~= a);
        assert(with_key(a, k) + with_key(b, k) =~= with_key(a, k));
    } else {
        assert((a + b).drop_last() =~= a + b.drop_last());
        assert((a + b).last() == b.last());
        lemma_with_key_concat(a, b.drop_last(), k);
        if answer_key(b.last()) == k {
            assert(with_key(a, k) + with_key(b, k) =~= (with_key(a, k) + with_key(b.drop_last(), k)).push(b.last()));
        }
    }
}

proof fn lemma_with_key_none(b: Seq<Seq<char>>, k: nat)
    requires
        forall|j: int| 0 <= j < b.len() ==> answer_key(#[trigger] b[j]) != k,
    ensures
        with_key(b, k) == Seq::<Seq<char>>::empty(),
    decreases b.len(),
{
    if b.len() > 0 {
        assert(b.last() == b[b.len() - 1]);
        lemma_with_key_none(b.drop_last(), k);
    }
}

proof fn lemma_insert_split<A>(s: Seq<A>, pos: int, x: A)
    requires
        0 <= pos <= s.len(),
    ensures
        s.insert(pos, x) =~= s.subrange(0, pos) + seq![x] + s.subrange(pos, s.len() as int),
        s =~= s.subrange(0, pos) + s.subrange(pos, s.len() as int),
{
}

/// Orders the answers by `answer_key`, keeping the order of answers with equal
/// keys, so that the correct answer does not always come last.
pub fn pseudo_shuffle(items: &mut Vec<&str>)
    ensures
        sorted_by_key(texts(final(items)@)),
        forall|k: nat| #[trigger] with_key(texts(final(items)@), k) == with_key(texts(old(items)@), k),
        texts(final(items)@).to_multiset() == texts(old(items)@).to_multiset(),
        final(items)@.len() == old(items)@.len(),
{
    let mut sorted: Vec<&str> = Vec::new();
    let mut keys: Vec<u128> = Vec::new();
    let mut i: usize = 0;
    assert(texts(sorted@) =~= texts(items@.subrange(0, 0)));
    while i < items.len()
        invariant
            0 <= i <= items.len(),
            sorted@.len() == i,
            keys@.len() == i,
            forall|k: int| 0 <= k < i ==> keys@[k] == answer_key(#[trigger] sorted@[k]@),
            sorted_by_key(texts(sorted@)),
            texts(sorted@).to_multiset() == texts(items@.subrange(0, i as int)).to_multiset(),
            forall|k: nat| #[trigger] with_key(texts(sorted@), k) == with_key(texts(items@.subrange(0, i as int)), k),
        decreases items.len() - i,
    {
        let item = items[i];
        let key = key_of(item);
        let mut pos: usize = 0;
        while pos < keys.len() && keys[pos] <= key
            invariant
                0 <= pos <= keys.len(),
                keys@.len() == sorted@.len(),
                forall|k: int| 0 <= k < pos ==> keys@[k] <= key,
            decreases keys.len() - pos,
        {
            pos = pos + 1;
        }
        let ghost before = sorted@;
        proof {
            lemma_insert_split(before, pos as int, item);
            lemma_insert_split(texts(before), pos as int, item@);
            assert(texts(before.insert(pos as int, item)) =~= texts(before).insert(pos as int, item@));
            assert(items@.subrange(0, i as int + 1) =~= items@.subrange(0, i as int) + seq![item]);
            assert(texts(items@.subrange(0, i as int + 1)) =~= texts(items@.subrange(0, i as int)) + seq![item@]);
            assert(texts(before) =~= texts(before).subrange(0, pos as int) + texts(before).subrange(pos as int, before.len() as int));
        }
        sorted.insert(pos, item);
        keys.insert(pos, key);
        proof {
            let t = texts(before);
            let head = t.subrange(0, pos as int);
            let tail = t.subrange(pos as int, t.len() as int);
            let prefix = texts(items@.subrange(0, i as int));
            assert forall|j: int| 0 <= j < tail.len() implies answer_key(#[trigger] tail[j]) > key by {
                assert(tail[j] == t[pos + j]);
                assert(!(keys@[pos as int + 1] <= key));
                assert(answer_key(t[pos as int]) <= answer_key(t[pos + j]));
            }
            assert forall|k: nat| #[trigger] with_key(texts(sorted@), k) == with_key(texts(items@.subrange(0, i as int + 1)), k) by {
                assert(texts(sorted@) =~= head + seq![item@] + tail);
                lemma_with_key_concat(head + seq![item@], tail, k);
                lemma_with_key_concat(head, seq![item@], k);
                lemma_with_key_concat(head, tail, k);
                lemma_with_key_concat(prefix, seq![item@], k);
                let one = seq![item@];
                assert(one.drop_last() =~= Seq::<Seq<char>>::empty());
                assert(one.last() == item@);
                assert(with_key(one.drop_last(), k) =~= Seq::<Seq<char>>::empty());
                assert(answer_key(item@) == key);
                assert(with_key(t, k) == with_key(prefix, k));
                assert(t =~= head + tail);
                assert(texts(items@.subrange(0, i as int + 1)) =~= prefix + one);
                if k == key {
                    lemma_with_key_none(tail, k);
                    assert(with_key(one, k) =~= one);
                    assert(with_key(head, k) + Seq::<Seq<char>>::empty() =~= with_key(head, k));
                    assert(with_key(head, k) + one + Seq::<Seq<char>>::empty() =~= with_key(head, k) + one);
                } else {
                    assert(with_key(one, k) =~= Seq::<Seq<char>>::empty());
                    assert(with_key(head, k) + Seq::<Seq<char>>::empty() =~= with_key(head, k));
                    assert(with_key(prefix, k) + Seq::<Seq<char>>::empty() =~= with_key(prefix, k));
                }
            }
            assert(texts(sorted@) =~= texts(before).insert(pos as int, item@));
            assert forall|a: int, b: int| 0 <= a < b < sorted@.len() implies answer_key(texts(sorted@)[a])
                <= answer_key(texts(sorted@)[b]) by {
                if b < pos {
                } else if a < pos && b == pos {
                } else if a < pos {
                    assert(keys@[a] <= key);
                } else if a == pos {
                    if pos < keys@.len() - 1 {
                        assert(!(keys@[pos as int + 1] <= key));
                        assert(answer_key(texts(before)[pos as int]) <= answer_key(texts(before)[b - 1]));
                    }
                } else {
                }
            }
        }
        i = i + 1;
    }
    assert(items@.subrange(0, items@.len() as int) =~= items@);
    *items = sorted;
}

/// What the question page shows.
#[derive(Debug)]
pub struct DisplayData<'a> {
    pub question: &'a str,
    pub answers: Vec<&'a str>,
    pub category: &'a str,
    pub points: i32,
    pub joker: bool,
    pub ratio: u8,
    pub elapsed_secs: u64,
}

impl<'a> DisplayData<'a> {
    /// The page for `question`: its incorrect answers and then its correct one,
    /// put in the order of `pseudo_shuffle`.
    pub fn new(question: &'a Question, category: &'a str, points: i32, joker: bool, ratio: u8, elapsed_secs: u64) -> (r: DisplayData<'a>)
        ensures
            r.question@ == question.string@,
            sorted_by_key(texts(r.answers@)),
            forall|k: nat| #[trigger] with_key(texts(r.answers@), k) == with_key(seq![
                question.incorrect[0]@,
                question.incorrect[1]@,
                question.incorrect[2]@,
                question.correct@,
            ], k),
            texts(r.answers@).to_multiset() == seq![
                question.incorrect[0]@,
                question.incorrect[1]@,
                question.incorrect[2]@,
                question.correct@,
            ].to_multiset(),
            r.category == category,
            r.points == points,
            r.joker == joker,
            r.ratio == ratio,
            r.elapsed_secs == elapsed_secs,
    {
        let mut answers: Vec<&'a str> = Vec::new();
        answers.push(question.incorrect[0].as_str());
        answers.push(question.incorrect[1].as_str());
        answers.push(question.incorrect[2].as_str());
        answers.push(question.correct.as_str());
        assert(texts(answers@) =~= seq![
            question.incorrect[0]@,
            question.incorrect[1]@,
            question.incorrect[2]@,
            question.correct@,
        ]);
        pseudo_shuffle(&mut answers);
        DisplayData { question: question.string.as_str(), answers, category, points, joker, ratio, elapsed_secs }
    }
}

/// The JSON pointer of a dotted key: `/` followed by the key with each `.`
/// turned into `/`.
pub fn get_json_pointer(key: &str) -> (r: String)
    ensures
        r@ == seq!['/'] + replaced(key@, '.', '/'),
{
    let mut r = String::new();
    push_char(&mut r, '/');
    let n = key.unicode_len();
    let mut i: usize = 0;
    while i < n
        invariant
            0 <= i <= n,
            n == key@.len(),
            r@ == seq!['/'] + replaced(key@.subrange(0, i as int), '.', '/'),
        decreases n - i,
    {
        let c = key.get_char(i);
        let d = if c == '.' {
            '/'
        } else {
            c
        };
        push_char(&mut r, d);
        i = i + 1;
        assert(replaced(key@.subrange(0, i as int), '.', '/') =~= replaced(key@.subrange(0, i as int - 1), '.', '/').push(d));
    }
    assert(key@.subrange(0, n as int) =~= key@);
    r
}

#[verifier::external_type_specification]
#[verifier::external_body]
pub struct ExParseIntError(ParseIntError);

/// Relies on `u32::from_str`: an optional `+` sign followed by decimal digits,
/// refused when anything else is there or the value does not fit.
#[verifier::external_body]
fn parse_u32(s: &str) -> (r: Result<u32, ParseIntError>)
    ensures
        r is Ok <==> decimal_u32(s@) is Some,
        r is Ok ==> r->Ok_0 == decimal_u32(s@)->0,
{
    s.parse::<u32>()
}

/// Why registering an administrator failed, as carried in the admin page's address.
#[derive(Debug, Clone, Copy, PartialEq, Eq, Structural)]
pub enum RegisterError {
    NoError,
    NameInUse,
    Other,
}

impl RegisterError {
    /// The number that stands for this error: 0, 1 or 2.
    pub fn id(self) -> (r: u8)
        ensures
            r == match self {
                RegisterError::NoError => 0u8,
                RegisterError::NameInUse => 1u8,
                RegisterError::Other => 2u8,
            },
    {
        match self {
            RegisterError::NoError => 0,
            RegisterError::NameInUse => 1,
            RegisterError::Other => 2,
        }
    }

    /// Reads the error from the number in a form value; a number other than
    /// 1 or 2 stands for none. Text that is no `u32` is refused.
    pub fn from_form_value(value: &str) -> (r: Result<RegisterError, ParseIntError>)
        ensures
            r is Ok <==> decimal_u32(value@) is Some,
            r is Ok ==> r->Ok_0 == RegisterError::from_id_spec(decimal_u32(value@)->0),
    {
        match parse_u32(value) {
            Ok(n) => Ok(RegisterError::from_id(n)),
            Err(e) => Err(e),
        }
    }

    pub open spec fn from_id_spec(n: u32) -> RegisterError {
        if n == 1 {
            RegisterError::NameInUse
        } else if n == 2 {
            RegisterError::Other
        } else {
            RegisterError::NoError
        }
    }

    /// The error that `n` stands for; numbers other than 1 and 2 stand for none.
    pub fn from_id(n: u32) -> (r: RegisterError)
        ensures
            r == RegisterError::from_id_spec(n),
    {
        if n == 1 {
            RegisterError::NameInUse
        } else if n == 2 {
            RegisterError::Other
        } else {
            RegisterError::NoError
        }
    }
}

} // verus!
