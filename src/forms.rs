//! The forms that start a game and resume it, read from their decoded
//! key-value pairs.
use vstd::prelude::*;
use std::num::ParseIntError;
use crate::models::CategoryId;
use crate::text::decimal_i32;

verus! {

/// Relies on `i32::from_str`: an optional sign followed by decimal digits,
/// refused when anything else is there or the value does not fit.
#[verifier::external_body]
fn parse_i32(s: &str) -> (r: Result<i32, ParseIntError>)
    ensures
        r is Ok <==> decimal_i32(s@) is Some,
        r is Ok ==> r->Ok_0 == decimal_i32(s@)->0,
{
    s.parse::<i32>()
}

/// The name of the field that holds the player's name.
pub open spec fn user_key() -> Seq<char> {
    seq!['u', 's', 'e', 'r']
}

/// The name of the field that holds a category id; it may come many times.
pub open spec fn categories_key() -> Seq<char> {
    seq!['c', 'a', 't', 'e', 'g', 'o', 'r', 'i', 'e', 's']
}

fn is_user_key(key: &String) -> (r: bool)
    ensures
        r == (key@ == user_key()),
{
    let expected = "user".to_owned();
    proof {
        reveal_strlit("user");
        assert("user"@ =~= user_key());
    }
    *key == expected
}

fn is_categories_key(key: &String) -> (r: bool)
    ensures
        r == (key@ == categories_key()),
{
    let expected = "categories".to_owned();
    proof {
        reveal_strlit("categories");
        assert("categories"@ =~= categories_key());
    }
    *key == expected
}

/// The settings form of a new game.
#[derive(Debug)]
pub struct Settings {
    pub user: String,
    pub categories: Vec<i32>,
}

/// The form that picks new categories after an intermission.
#[derive(Debug)]
pub struct NewCategories {
    pub categories: Vec<CategoryId>,
}

/// The player's name (the last one given) and the category ids read from the
/// pairs `items`; the value that could not be read when one is refused:
/// a category that is no `i32`, or, when `strict`, a field of another name.
pub open spec fn settings_fields(items: Seq<(String, String)>, strict: bool) -> Result<(Option<Seq<char>>, Seq<i32>), Seq<char>>
    decreases items.len(),
{
    if items.len() == 0 {
        Ok((None, seq![]))
    } else {
        match settings_fields(items.drop_last(), strict) {
            Err(e) => Err(e),
            Ok((user, cats)) => {
                let key = items.last().0@;
                let value = items.last().1@;
                if key == user_key() {
                    Ok((Some(value), cats))
                } else if key == categories_key() {
                    match decimal_i32(value) {
                        Some(n) => Ok((user, cats.push(n))),
                        None => Err(value),
                    }
                } else if strict {
                    Err(value)
                } else {
                    Ok((user, cats))
                }
            },
        }
    }
}

/// The category ids read from the pairs `items`; the value that could not be
/// read when one is refused.
pub open spec fn category_fields(items: Seq<(String, String)>, strict: bool) -> Result<Seq<i32>, Seq<char>>
    decreases items.len(),
{
    if items.len() == 0 {
        Ok(seq![])
    } else {
        match category_fields(items.drop_last(), strict) {
            Err(e) => Err(e),
            Ok(cats) => {
                let key = items.last().0@;
                let value = items.last().1@;
                if key == categories_key() {
                    match decimal_i32(value) {
                        Some(n) => Ok(cats.push(n)),
                        None => Err(value),
                    }
                } else if strict {
                    Err(value)
                } else {
                    Ok(cats)
                }
            },
        }
    }
}

proof fn lemma_settings_error_stays(items: Seq<(String, String)>, m: int, strict: bool)
    requires
        0 <= m <= items.len(),
        settings_fields(items.subrange(0, m), strict) is Err,
    ensures
        settings_fields(items, strict) == settings_fields(items.subrange(0, m), strict),
    decreases items.len() - m,
{
    if m == items.len() {
        assert(items.subrange(0, m) =~= items);
    } else {
        assert(items.subrange(0, m + 1).drop_last() =~= items.subrange(0, m));
        lemma_settings_error_stays(items, m + 1, strict);
    }
}

proof fn lemma_category_error_stays(items: Seq<(String, String)>, m: int, strict: bool)
    requires
        0 <= m <= items.len(),
        category_fields(items.subrange(0, m), strict) is Err,
    ensures
        category_fields(items, strict) == category_fields(items.subrange(0, m), strict),
    decreases items.len() - m,
{
    if m == items.len() {
        assert(items.subrange(0, m) =~= items);
    } else {
        assert(items.subrange(0, m + 1).drop_last() =~= items.subrange(0, m));
        lemma_category_error_stays(items, m + 1, strict);
    }
}

impl Settings {
    /// Reads the settings from the decoded pairs of the form. Refused with the
    /// offending value as in `settings_fields`, or with "user not specified"
    /// when no name was given.
    pub fn from_form(items: &Vec<(String, String)>, strict: bool) -> (r: Result<Settings, String>)
        ensures
            match settings_fields(items@, strict) {
                Err(e) => r is Err && r->Err_0@ == e,
                Ok((None, _)) => r is Err,
                Ok((Some(user), cats)) => r is Ok && r->Ok_0.user@ == user && r->Ok_0.categories@ == cats,
            },
    {
        let mut user: Option<String> = None;
        let mut categories: Vec<i32> = Vec::new();
        let mut i: usize = 0;
        while i < items.len()
            invariant
                0 <= i <= items.len(),
                settings_fields(items@.subrange(0, i as int), strict) == Ok::<(Option<Seq<char>>, Seq<i32>), Seq<char>>((
                    match user {
                        Some(u) => Some(u@),
                        None => None,
                    },
                    categories@,
                )),
            decreases items.len() - i,
        {
            proof {
                assert(items@.subrange(0, i as int + 1).drop_last() =~= items@.subrange(0, i as int));
            }
            let (key, value) = &items[i];
            if is_user_key(key) {
                user = Some(value.clone());
            } else if is_categories_key(key) {
                match parse_i32(value.as_str()) {
                    Ok(n) => categories.push(n),
                    Err(_) => {
                        proof {
                            lemma_settings_error_stays(items@, i as int + 1, strict);
                        }
                        return Err(value.clone());
                    },
                }
            } else if strict {
                proof {
                    lemma_settings_error_stays(items@, i as int + 1, strict);
                }
                return Err(value.clone());
            }
            i = i + 1;
        }
        assert(items@.subrange(0, i as int) =~= items@);
        match user {
            Some(user) => Ok(Settings { user, categories }),
            None => Err("user not specified".to_owned()),
        }
    }
}

impl NewCategories {
    /// Reads the category ids from the decoded pairs of the form, refused with
    /// the offending value as in `category_fields`.
    pub fn from_form(items: &Vec<(String, String)>, strict: bool) -> (r: Result<NewCategories, String>)
        ensures
            match category_fields(items@, strict) {
                Err(e) => r is Err && r->Err_0@ == e,
                Ok(cats) => r is Ok && r->Ok_0.categories@.len() == cats.len() && forall|k: int|
                    0 <= k < cats.len() ==> #[trigger] r->Ok_0.categories@[k] == CategoryId(cats[k]),
            },
    {
        let mut categories: Vec<CategoryId> = Vec::new();
        let mut i: usize = 0;
        while i < items.len()
            invariant
                0 <= i <= items.len(),
                category_fields(items@.subrange(0, i as int), strict) is Ok,
                categories@.len() == category_fields(items@.subrange(0, i as int), strict)->Ok_0.len(),
                forall|k: int| 0 <= k < categories@.len() ==> #[trigger] categories@[k] == CategoryId(
                    category_fields(items@.subrange(0, i as int), strict)->Ok_0[k],
                ),
            decreases items.len() - i,
        {
            proof {
                assert(items@.subrange(0, i as int + 1).drop_last() =~= items@.subrange(0, i as int));
            }
            let (key, value) = &items[i];
            if is_categories_key(key) {
                match parse_i32(value.as_str()) {
                    Ok(n) => categories.push(CategoryId(n)),
                    Err(_) => {
                        proof {
                            lemma_category_error_stays(items@, i as int + 1, strict);
                        }
                        return Err(value.clone());
                    },
                }
            } else if strict {
                proof {
                    lemma_category_error_stays(items@, i as int + 1, strict);
                }
                return Err(value.clone());
            }
            i = i + 1;
        }
        assert(items@.subrange(0, i as int) =~= items@);
        Ok(NewCategories { categories })
    }
}

} // verus!
