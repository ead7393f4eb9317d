//! The store as bytes and names: what is written to disk for a tree, what
//! a tree is read back from, and where store and backups are kept. Reading,
//! writing and the cipher are the caller's part; everything here computes.

use crate::error::VaultError;
use crate::tree::{listing_valid, Listing, SecretsTree};
use std::collections::BTreeMap;
use vstd::prelude::*;
use vstd::string::{StrSliceExecFns, StringExecFns};

verus! {

/// Name of the store file inside the vault's directory.
pub const FILE_NAME: &'static str = ".my-secrets-data";

/// Number of characters of a timestamp that name a backup: date and time
/// down to the second.
pub const BACKUP_STAMP_LENGTH: usize = 19;

/// The listing that `serde_json::from_slice` reads from `bytes` as a JSON
/// object of objects of strings; `None` where it reports an error.
pub uninterp spec fn parsed_store(bytes: Seq<u8>) -> Option<Listing>;

/// The JSON text that `serde_json::to_vec` writes for the mapping that a
/// valid listing stands for.
pub uninterp spec fn json_of(listing: Listing) -> Seq<u8>;

/// `serde_json::from_slice`, reading a map from category name to a map
/// from subcategory name to text. Trusted: that the outcome depends on the
/// bytes alone. The entries come out in the order of the maps read.
#[verifier::external_body]
fn parse_entries(bytes: &[u8]) -> (entries: Option<Vec<(String, Vec<(String, String)>)>>)
    ensures
        match entries {
            Some(e) => parsed_store(bytes@) == Some(e.deep_view()),
            None => parsed_store(bytes@) is None,
        },
{
    let parsed: BTreeMap<String, BTreeMap<String, String>> = serde_json::from_slice(bytes).ok()?;
    Some(parsed.into_iter().map(|(name, secrets)| (name, secrets.into_iter().collect())).collect())
}

/// `serde_json::to_vec`, writing a map from category name to a map from
/// subcategory name to text. Trusted: that the bytes depend on the entries
/// alone, and that writing does not fail, the keys being strings and the
/// target a vector.
#[verifier::external_body]
fn render_entries(entries: &Vec<(String, Vec<(String, String)>)>) -> (bytes: Vec<u8>)
    requires
        listing_valid(entries.deep_view()),
    ensures
        bytes@ == json_of(entries.deep_view()),
{
    let tree: BTreeMap<&String, BTreeMap<&String, &String>> = entries.iter().map(
        |category| (&category.0, category.1.iter().map(|secret| (&secret.0, &secret.1)).collect()),
    ).collect();
    serde_json::to_vec(&tree).unwrap_or_default()
}

/// The listing of the tree that parsed plaintext stands for: the
/// plaintext has to parse, and to a valid listing.
pub open spec fn decoded(parsed: Option<Listing>) -> Result<Listing, VaultError> {
    match parsed {
        Some(l) if listing_valid(l) => Ok(l),
        _ => Err(VaultError::AuthenticationFailed),
    }
}

/// Builds the tree from what the parser made of the plaintext. Anything
/// but a valid listing is an `AuthenticationFailed`.
pub fn tree_from_parsed(parsed: Option<Vec<(String, Vec<(String, String)>)>>) -> (result: Result<
    SecretsTree,
    VaultError,
>)
    ensures
        match decoded(parsed.deep_view()) {
            Ok(l) => result matches Ok(tree) && tree.wf() && tree.listing() == l,
            Err(e) => result matches Err(f) && f == e,
        },
{
    match parsed {
        Some(entries) => match SecretsTree::from_entries(entries) {
            Some(tree) => Ok(tree),
            None => Err(VaultError::AuthenticationFailed),
        },
        None => Err(VaultError::AuthenticationFailed),
    }
}

/// Reads a tree from decrypted store contents.
pub fn decode_tree(plain: &[u8]) -> (result: Result<SecretsTree, VaultError>)
    ensures
        match decoded(parsed_store(plain@)) {
            Ok(l) => result matches Ok(tree) && tree.wf() && tree.listing() == l,
            Err(e) => result matches Err(f) && f == e,
        },
{
    tree_from_parsed(parse_entries(plain))
}

/// What was found where the store is kept.
#[derive(Debug)]
pub enum StoreRead {
    /// There is no store file.
    Missing,
    /// There is a store file and the key does not decrypt it.
    Undecryptable,
    /// The decrypted contents of the store file.
    Plain(Vec<u8>),
}

/// The listing of the tree that a store stands for.
pub open spec fn loaded(read: StoreRead) -> Result<Listing, VaultError> {
    match read {
        StoreRead::Missing => Ok(Seq::empty()),
        StoreRead::Undecryptable => Err(VaultError::AuthenticationFailed),
        StoreRead::Plain(bytes) => decoded(parsed_store(bytes@)),
    }
}

/// Makes the tree of what was found where the store is kept. A missing
/// store is the empty tree of a first run. A store that does not decrypt
/// and one whose contents are no tree both give `AuthenticationFailed`,
/// on purpose indistinguishable.
pub fn load_file(read: &StoreRead) -> (result: Result<SecretsTree, VaultError>)
    ensures
        match loaded(*read) {
            Ok(l) => result matches Ok(tree) && tree.wf() && tree.listing() == l,
            Err(e) => result matches Err(f) && f == e,
        },
{
    match read {
        StoreRead::Missing => Ok(SecretsTree::new()),
        StoreRead::Undecryptable => Err(VaultError::AuthenticationFailed),
        StoreRead::Plain(bytes) => decode_tree(bytes.as_slice()),
    }
}

/// The bytes to encrypt and write for a tree: the whole tree as one JSON
/// object.
pub fn save_to_file(tree: &SecretsTree) -> (plain: Vec<u8>)
    requires
        tree.wf(),
    ensures
        plain@ == json_of(tree.listing()),
{
    render_entries(tree.entries())
}

/// The path of a file of the vault under the user's home directory.
pub open spec fn full_filename(home: Seq<char>, file_name: Seq<char>) -> Seq<char> {
    home + "/.my-secrets/"@ + file_name
}

/// The path of a file of the vault under the user's home directory.
pub fn compile_full_filename(home: &str, file_name: &str) -> (path: String)
    ensures
        path@ == full_filename(home@, file_name@),
{
    String::from_str(home).concat("/.my-secrets/").concat(file_name)
}

/// The directory under the user's home directory that receives the
/// backups.
pub fn backup_directory(home: &str) -> (path: String)
    ensures
        path@ == home@ + "/Library/Mobile Documents/com~apple~CloudDocs/backups/my-secrets"@,
{
    String::from_str(home).concat(
        "/Library/Mobile Documents/com~apple~CloudDocs/backups/my-secrets",
    )
}

/// A text with each occurrence of one character replaced by another.
pub open spec fn with_replaced(text: Seq<char>, from: char, to: char) -> Seq<char> {
    Seq::new(text.len(), |i: int| if text[i] == from { to } else { text[i] })
}

/// A text with each colon replaced by a hyphen.
pub open spec fn with_hyphens(text: Seq<char>) -> Seq<char> {
    with_replaced(text, ':', '-')
}

/// `str::replace` with a pattern and a replacement of one character each:
/// every occurrence of the pattern's character becomes the replacement's,
/// nothing else changes.
#[verifier::external_body]
fn replace_each(text: &str, from: &str, to: &str) -> (replaced: String)
    requires
        from@.len() == 1,
        to@.len() == 1,
    ensures
        replaced@ == with_replaced(text@, from@[0], to@[0]),
{
    text.replace(from, to)
}

/// The name of the backup made at a time: the timestamp cut after the
/// seconds, colons replaced so that it can name a file. A timestamp that
/// is too short or not plain ASCII names no backup.
pub open spec fn backup_name(timestamp: Seq<char>) -> Option<Seq<char>> {
    if vstd::utf8::is_ascii_chars(timestamp) && timestamp.len() >= BACKUP_STAMP_LENGTH {
        Some(with_hyphens(timestamp).take(BACKUP_STAMP_LENGTH as int))
    } else {
        None
    }
}

/// A backup to write: where, and what.
#[derive(Debug, PartialEq, Eq)]
pub struct BackupFile {
    pub path: String,
    pub content: Vec<u8>,
}

/// The backup that has to be written before the store is overwritten.
pub open spec fn backup_of(
    current: Option<Seq<u8>>,
    directory: Seq<char>,
    timestamp: Seq<char>,
) -> Option<(Seq<char>, Seq<u8>)> {
    match (current, backup_name(timestamp)) {
        (Some(content), Some(name)) => Some((directory + "/"@ + name, content)),
        _ => None,
    }
}

/// Plans the backup of the store as it is on disk before a save: the
/// current contents, unchanged, under the backup directory, named by the
/// time of the save. There is nothing to back up before the first save.
pub fn save_current_as_backup(current: Option<Vec<u8>>, directory: &str, timestamp: &str) -> (backup:
    Option<BackupFile>)
    ensures
        match backup_of(current.deep_view(), directory@, timestamp@) {
            Some((path, content)) => backup matches Some(b) && b.path@ == path && b.content@
                == content,
            None => backup is None,
        },
{
    let content = match current {
        Some(content) => content,
        None => {
            return None;
        },
    };
    if !timestamp.is_ascii() || timestamp.unicode_len() < BACKUP_STAMP_LENGTH {
        return None;
    }
    proof {
        reveal_strlit(":");
        reveal_strlit("-");
    }
    let replaced = replace_each(timestamp, ":", "-");
    assert(replaced@ =~= with_hyphens(timestamp@));
    proof {
        assert(vstd::utf8::is_ascii_chars(replaced@)) by {
            assert forall|i: int| 0 <= i < replaced@.len() implies '\0' <= #[trigger] replaced@[i]
                <= '\u{7f}' by {
                assert('\0' <= timestamp@[i] <= '\u{7f}');
            }
        }
    }
    let name = replaced.as_str().substring_ascii(0, BACKUP_STAMP_LENGTH);
    let path = String::from_str(directory).concat("/").concat(name);
    Some(BackupFile { path, content })
}

} // verus!
