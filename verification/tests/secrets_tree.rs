use my_secrets::error::VaultError;
use my_secrets::tree::SecretsTree;

fn names(list: &[&str]) -> Vec<String> {
    list.iter().map(|name| name.to_string()).collect()
}

fn sample() -> SecretsTree {
    let mut tree = SecretsTree::new();
    tree.create_category("work").unwrap();
    tree.create_subcategory("work", "vpn").unwrap();
    tree.create_subcategory("work", "mail").unwrap();
    tree.set_text("work", "vpn", "hunter2".to_string()).unwrap();
    tree.set_text("work", "mail", "s3cret".to_string()).unwrap();
    tree.create_category("home").unwrap();
    tree.create_subcategory("home", "wifi").unwrap();
    tree
}

#[test]
fn new_tree_is_empty() {
    let tree = SecretsTree::new();
    assert!(tree.entries().is_empty());
    assert!(tree.category_names().is_empty());
    assert!(!tree.contains_category("work"));
}

#[test]
fn categories_are_listed_in_name_order() {
    let mut tree = SecretsTree::new();
    for name in ["pear", "apple", "quince", "Banana", "fig"] {
        assert_eq!(tree.create_category(name), Ok(()));
    }
    assert_eq!(tree.category_names(), names(&["Banana", "apple", "fig", "pear", "quince"]));
}

#[test]
fn subcategories_are_listed_in_name_order() {
    let tree = sample();
    assert_eq!(tree.subcategory_names("work"), Some(names(&["mail", "vpn"])));
    assert_eq!(tree.subcategory_names("home"), Some(names(&["wifi"])));
    assert_eq!(tree.subcategory_names("nowhere"), None);
}

#[test]
fn creating_a_category_twice_fails_and_changes_nothing() {
    let mut tree = sample();
    let before = tree.clone();
    assert_eq!(tree.create_category("work"), Err(VaultError::DuplicateName));
    assert_eq!(tree, before);
    assert_eq!(tree.text("work", "vpn").map(String::as_str), Some("hunter2"));
}

#[test]
fn empty_names_are_refused() {
    let mut tree = sample();
    let before = tree.clone();
    assert_eq!(tree.create_category(""), Err(VaultError::InvariantViolation));
    assert_eq!(tree.create_subcategory("work", ""), Err(VaultError::InvariantViolation));
    assert_eq!(tree.rename_category("work", ""), Err(VaultError::InvariantViolation));
    assert_eq!(tree, before);
}

#[test]
fn new_category_is_empty() {
    let mut tree = SecretsTree::new();
    tree.create_category("Bank").unwrap();
    assert!(tree.contains_category("Bank"));
    assert_eq!(tree.subcategory_names("Bank"), Some(Vec::new()));
}

#[test]
fn new_subcategory_has_empty_text() {
    let mut tree = SecretsTree::new();
    tree.create_category("Bank").unwrap();
    assert_eq!(tree.create_subcategory("Bank", "PIN"), Ok(()));
    assert!(tree.contains_subcategory("Bank", "PIN"));
    assert_eq!(tree.text("Bank", "PIN").map(String::as_str), Some(""));
}

#[test]
fn creating_a_subcategory_twice_fails_and_changes_nothing() {
    let mut tree = sample();
    let before = tree.clone();
    assert_eq!(tree.create_subcategory("work", "vpn"), Err(VaultError::DuplicateName));
    assert_eq!(tree, before);
}

#[test]
fn subcategory_names_are_scoped_to_their_category() {
    let mut tree = sample();
    assert_eq!(tree.create_subcategory("home", "vpn"), Ok(()));
    assert_eq!(tree.text("home", "vpn").map(String::as_str), Some(""));
    assert_eq!(tree.text("work", "vpn").map(String::as_str), Some("hunter2"));
}

#[test]
fn subcategory_under_missing_category_is_not_found() {
    let mut tree = sample();
    assert_eq!(tree.create_subcategory("nowhere", "x"), Err(VaultError::NotFound));
}

#[test]
fn rename_keeps_subcategories_and_texts() {
    let mut tree = sample();
    assert_eq!(tree.rename_category("work", "job"), Ok(()));
    assert!(!tree.contains_category("work"));
    assert!(tree.contains_category("job"));
    assert_eq!(tree.subcategory_names("job"), Some(names(&["mail", "vpn"])));
    assert_eq!(tree.text("job", "vpn").map(String::as_str), Some("hunter2"));
    assert_eq!(tree.text("job", "mail").map(String::as_str), Some("s3cret"));
    assert_eq!(tree.text("work", "vpn"), None);
    assert_eq!(tree.text("home", "wifi").map(String::as_str), Some(""));
    assert_eq!(tree.category_names(), names(&["home", "job"]));
}

#[test]
fn rename_moves_the_category_to_its_place_in_the_order() {
    let mut tree = sample();
    assert_eq!(tree.rename_category("home", "zoo"), Ok(()));
    assert_eq!(tree.category_names(), names(&["work", "zoo"]));
    assert_eq!(tree.rename_category("zoo", "art"), Ok(()));
    assert_eq!(tree.category_names(), names(&["art", "work"]));
    assert_eq!(tree.subcategory_names("art"), Some(names(&["wifi"])));
}

#[test]
fn rename_to_existing_name_fails_and_changes_nothing() {
    let mut tree = sample();
    let before = tree.clone();
    assert_eq!(tree.rename_category("work", "home"), Err(VaultError::DuplicateName));
    assert_eq!(tree.rename_category("work", "work"), Err(VaultError::DuplicateName));
    assert_eq!(tree, before);
}

#[test]
fn rename_of_missing_category_is_not_found() {
    let mut tree = sample();
    let before = tree.clone();
    assert_eq!(tree.rename_category("nowhere", "job"), Err(VaultError::NotFound));
    assert_eq!(tree, before);
}

#[test]
fn set_text_replaces_the_text() {
    let mut tree = sample();
    assert_eq!(tree.set_text("work", "vpn", "new".to_string()), Ok(()));
    assert_eq!(tree.text("work", "vpn").map(String::as_str), Some("new"));
    assert_eq!(tree.text("work", "mail").map(String::as_str), Some("s3cret"));
    assert_eq!(tree.set_text("work", "vpn", String::new()), Ok(()));
    assert_eq!(tree.text("work", "vpn").map(String::as_str), Some(""));
}

#[test]
fn set_text_of_missing_subcategory_is_not_found() {
    let mut tree = sample();
    let before = tree.clone();
    assert_eq!(tree.set_text("work", "nothing", "x".to_string()), Err(VaultError::NotFound));
    assert_eq!(tree.set_text("nowhere", "vpn", "x".to_string()), Err(VaultError::NotFound));
    assert_eq!(tree, before);
}

#[test]
fn text_of_missing_subcategory_is_none() {
    let tree = sample();
    assert_eq!(tree.text("work", "nothing"), None);
    assert_eq!(tree.text("nowhere", "vpn"), None);
    assert!(!tree.contains_subcategory("work", "nothing"));
}

#[test]
fn entries_hold_the_whole_tree_in_order() {
    let tree = sample();
    let expected = vec![
        ("home".to_string(), vec![("wifi".to_string(), String::new())]),
        (
            "work".to_string(),
            vec![
                ("mail".to_string(), "s3cret".to_string()),
                ("vpn".to_string(), "hunter2".to_string()),
            ],
        ),
    ];
    assert_eq!(tree.entries(), &expected);
}

#[test]
fn from_entries_accepts_a_valid_listing() {
    let tree = sample();
    let rebuilt = SecretsTree::from_entries(tree.entries().clone());
    assert_eq!(rebuilt, Some(tree));
}

#[test]
fn from_entries_refuses_unsorted_duplicate_and_empty_names() {
    let leaf = || vec![("a".to_string(), "1".to_string())];
    assert_eq!(
        SecretsTree::from_entries(vec![("b".to_string(), leaf()), ("a".to_string(), leaf())]),
        None
    );
    assert_eq!(
        SecretsTree::from_entries(vec![("a".to_string(), leaf()), ("a".to_string(), leaf())]),
        None
    );
    assert_eq!(SecretsTree::from_entries(vec![(String::new(), leaf())]), None);
    assert_eq!(
        SecretsTree::from_entries(vec![(
            "a".to_string(),
            vec![("y".to_string(), String::new()), ("x".to_string(), String::new())]
        )]),
        None
    );
    assert_eq!(
        SecretsTree::from_entries(vec![("a".to_string(), vec![(String::new(), "1".to_string())])]),
        None
    );
}
