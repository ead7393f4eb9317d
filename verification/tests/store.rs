use my_secrets::error::VaultError;
use my_secrets::file::{backup_directory, compile_full_filename, decode_tree, load_file};
use my_secrets::file::{save_current_as_backup, save_to_file, tree_from_parsed};
use my_secrets::file::{BackupFile, StoreRead, FILE_NAME};
use my_secrets::tree::SecretsTree;

fn bank() -> SecretsTree {
    let mut tree = SecretsTree::new();
    tree.create_category("Bank").unwrap();
    tree.create_subcategory("Bank", "PIN").unwrap();
    tree.set_text("Bank", "PIN", "1234".to_string()).unwrap();
    tree
}

#[test]
fn missing_store_is_an_empty_tree() {
    assert_eq!(load_file(&StoreRead::Missing), Ok(SecretsTree::new()));
}

#[test]
fn undecryptable_store_fails_authentication() {
    assert_eq!(load_file(&StoreRead::Undecryptable), Err(VaultError::AuthenticationFailed));
}

#[test]
fn plaintext_that_is_no_tree_fails_authentication() {
    for garbage in [
        &b""[..],
        b"not json",
        b"[1,2,3]",
        b"{\"Bank\":\"flat\"}",
        b"{\"Bank\":{\"PIN\":1234}}",
        b"{\"Bank\":{\"PIN\":\"1234\"}} trailing",
        b"\xff\xfe\x00",
    ] {
        assert_eq!(
            load_file(&StoreRead::Plain(garbage.to_vec())),
            Err(VaultError::AuthenticationFailed)
        );
        assert_eq!(decode_tree(garbage), Err(VaultError::AuthenticationFailed));
    }
}

#[test]
fn plaintext_with_an_empty_name_fails_authentication() {
    assert_eq!(decode_tree(b"{\"\":{}}"), Err(VaultError::AuthenticationFailed));
    assert_eq!(decode_tree(b"{\"Bank\":{\"\":\"x\"}}"), Err(VaultError::AuthenticationFailed));
}

#[test]
fn plaintext_is_read_as_a_tree() {
    let tree = load_file(&StoreRead::Plain(b"{\"Bank\":{\"PIN\":\"1234\"}}".to_vec())).unwrap();
    assert_eq!(tree, bank());
    assert_eq!(decode_tree(b"{}"), Ok(SecretsTree::new()));
}

#[test]
fn plaintext_in_any_order_gives_the_sorted_tree() {
    let tree = decode_tree(b" { \"b\" : { \"y\" : \"2\", \"x\" : \"1\" }, \"a\" : { } } ").unwrap();
    assert_eq!(tree.category_names(), vec!["a".to_string(), "b".to_string()]);
    assert_eq!(tree.subcategory_names("b"), Some(vec!["x".to_string(), "y".to_string()]));
    assert_eq!(tree.text("b", "y").map(String::as_str), Some("2"));
}

#[test]
fn tree_is_written_as_one_json_object() {
    assert_eq!(save_to_file(&bank()), b"{\"Bank\":{\"PIN\":\"1234\"}}".to_vec());
    assert_eq!(save_to_file(&SecretsTree::new()), b"{}".to_vec());
}

#[test]
fn written_tree_reads_back_equal() {
    let mut tree = bank();
    tree.create_category("notes").unwrap();
    tree.create_subcategory("notes", "quote \" and \\ and \n").unwrap();
    tree.set_text("notes", "quote \" and \\ and \n", "täxt\twith \u{1F600} and \u{0}".to_string())
        .unwrap();
    let plain = save_to_file(&tree);
    assert_eq!(decode_tree(&plain), Ok(tree.clone()));
    assert_eq!(load_file(&StoreRead::Plain(plain)), Ok(tree));
}

#[test]
fn parsed_entries_become_a_tree() {
    assert_eq!(tree_from_parsed(None), Err(VaultError::AuthenticationFailed));
    assert_eq!(tree_from_parsed(Some(Vec::new())), Ok(SecretsTree::new()));
    assert_eq!(tree_from_parsed(Some(bank().entries().clone())), Ok(bank()));
    assert_eq!(
        tree_from_parsed(Some(vec![(String::new(), Vec::new())])),
        Err(VaultError::AuthenticationFailed)
    );
}

#[test]
fn store_lives_under_the_home_directory() {
    assert_eq!(FILE_NAME, ".my-secrets-data");
    assert_eq!(
        compile_full_filename("/Users/me", FILE_NAME),
        "/Users/me/.my-secrets/.my-secrets-data"
    );
    assert_eq!(
        backup_directory("/Users/me"),
        "/Users/me/Library/Mobile Documents/com~apple~CloudDocs/backups/my-secrets"
    );
}

#[test]
fn backup_is_named_by_the_second() {
    let backup =
        save_current_as_backup(Some(vec![1, 2, 3]), "/backups", "2024-01-02T03:04:05.123456+00:00");
    assert_eq!(
        backup,
        Some(BackupFile { path: "/backups/2024-01-02T03-04-05".to_string(), content: vec![1, 2, 3] })
    );
}

#[test]
fn backup_of_exactly_the_stamp_length() {
    let backup = save_current_as_backup(Some(Vec::new()), "dir", "2024-01-02T03:04:05");
    assert_eq!(
        backup,
        Some(BackupFile { path: "dir/2024-01-02T03-04-05".to_string(), content: Vec::new() })
    );
}

#[test]
fn nothing_to_back_up_before_the_first_save() {
    assert_eq!(save_current_as_backup(None, "/backups", "2024-01-02T03:04:05.123456+00:00"), None);
}

#[test]
fn unusable_timestamp_names_no_backup() {
    assert_eq!(save_current_as_backup(Some(vec![1]), "/backups", "2024-01-02"), None);
    assert_eq!(save_current_as_backup(Some(vec![1]), "/backups", ""), None);
    assert_eq!(save_current_as_backup(Some(vec![1]), "/backups", "２０２４-01-02T03:04:05.123456"), None);
}
