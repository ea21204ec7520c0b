use trivia::forms::{NewCategories, Settings};
use trivia::models::CategoryId;

fn pairs(items: &[(&str, &str)]) -> Vec<(String, String)> {
    items.iter().map(|(k, v)| (k.to_string(), v.to_string())).collect()
}

#[test]
fn settings_read_user_and_categories() {
    let s = Settings::from_form(&pairs(&[("user", "Tom"), ("categories", "1"), ("categories", "-3")]), true).unwrap();
    assert_eq!(s.user, "Tom");
    assert_eq!(s.categories, vec![1, -3]);
}

#[test]
fn settings_last_user_wins_and_unknown_fields_are_skipped() {
    let s = Settings::from_form(&pairs(&[("user", "A"), ("other", "x"), ("user", "B")]), false).unwrap();
    assert_eq!(s.user, "B");
    assert!(s.categories.is_empty());
}

#[test]
fn settings_refusals() {
    assert_eq!(Settings::from_form(&pairs(&[("user", "A"), ("other", "x")]), true).err(), Some("x".to_string()));
    assert_eq!(Settings::from_form(&pairs(&[("categories", "one"), ("user", "A")]), true).err(), Some("one".to_string()));
    assert_eq!(Settings::from_form(&pairs(&[("categories", "2")]), true).err(), Some("user not specified".to_string()));
}

#[test]
fn new_categories_read_ids() {
    let c = NewCategories::from_form(&pairs(&[("categories", "4"), ("x", "y"), ("categories", "+5")]), false).unwrap();
    assert_eq!(c.categories, vec![CategoryId(4), CategoryId(5)]);
    assert_eq!(NewCategories::from_form(&pairs(&[("x", "y")]), true).err(), Some("y".to_string()));
    assert_eq!(NewCategories::from_form(&pairs(&[("categories", "99999999999")]), true).err(), Some("99999999999".to_string()));
}
