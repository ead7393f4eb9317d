//! The secrets tree: categories by name, each a mapping from subcategory
//! name to secret text. Both levels are kept sorted by name, so a tree has
//! exactly one representation and is listed in name order.

use crate::error::VaultError;
use crate::names::{compare_names, lemma_name_less_asymmetric, lemma_name_less_transitive};
use crate::names::{lemma_sorted_no_duplicates, name_less, strictly_sorted, NameOrder};
use vstd::prelude::*;
use vstd::string::StringExecFns;

verus! {

/// What one category holds: subcategory name to secret text.
pub type Secrets = Map<Seq<char>, Seq<char>>;

/// What a tree holds: category name to the category's secrets.
pub type TreeModel = Map<Seq<char>, Secrets>;

/// The subcategories of one category in name order, each with its text.
pub type SecretList = Seq<(Seq<char>, Seq<char>)>;

/// The categories of a tree in name order, each with its subcategories.
pub type Listing = Seq<(Seq<char>, SecretList)>;

/// The names of a sequence of named values, in its order.
pub open spec fn keys_of<T>(s: Seq<(Seq<char>, T)>) -> Seq<Seq<char>> {
    Seq::new(s.len(), |i: int| s[i].0)
}

/// The names are strictly sorted and none is empty.
pub open spec fn names_valid(keys: Seq<Seq<char>>) -> bool {
    &&& strictly_sorted(keys)
    &&& forall|i: int| 0 <= i < keys.len() ==> (#[trigger] keys[i]).len() > 0
}

/// The mapping that takes `keys[i]` to `vals[i]`.
pub open spec fn assoc<T>(keys: Seq<Seq<char>>, vals: Seq<T>) -> Map<Seq<char>, T> {
    Map::new(|k: Seq<char>| keys.contains(k), |k: Seq<char>| vals[keys.index_of(k)])
}

/// The texts of a list of subcategories, in its order.
pub open spec fn secret_texts(s: SecretList) -> Seq<Seq<char>> {
    Seq::new(s.len(), |i: int| s[i].1)
}

/// The mapping that a list of subcategories stands for.
pub open spec fn secrets_of(s: SecretList) -> Secrets {
    assoc(keys_of(s), secret_texts(s))
}

/// The secrets of each category of a listing, in its order.
pub open spec fn category_secrets(l: Listing) -> Seq<Secrets> {
    Seq::new(l.len(), |i: int| secrets_of(l[i].1))
}

/// The mapping that a listing stands for.
pub open spec fn tree_of(l: Listing) -> TreeModel {
    assoc(keys_of(l), category_secrets(l))
}

/// A listing is valid when category names are non-empty and strictly
/// sorted, and so are the subcategory names of each category.
pub open spec fn listing_valid(l: Listing) -> bool {
    &&& names_valid(keys_of(l))
    &&& forall|i: int| 0 <= i < l.len() ==> names_valid(keys_of(#[trigger] l[i].1))
}

/// `p` is where `k` has to be inserted into `keys` to keep them sorted.
pub open spec fn insertion_point(keys: Seq<Seq<char>>, k: Seq<char>, p: int) -> bool {
    &&& 0 <= p <= keys.len()
    &&& forall|j: int| 0 <= j < p ==> name_less(#[trigger] keys[j], k)
    &&& p < keys.len() ==> name_less(k, keys[p])
}

/// A name with an insertion point does not occur, and inserting it there
/// keeps the names sorted.
pub proof fn lemma_insert_keeps_sorted(keys: Seq<Seq<char>>, k: Seq<char>, p: int)
    requires
        strictly_sorted(keys),
        insertion_point(keys, k, p),
    ensures
        !keys.contains(k),
        strictly_sorted(keys.insert(p, k)),
{
    assert forall|j: int| 0 <= j < keys.len() implies keys[j] != k by {
        if j < p {
            lemma_name_less_asymmetric(keys[j], k);
        } else {
            if j > p {
                lemma_name_less_transitive(k, keys[p], keys[j]);
            }
            lemma_name_less_asymmetric(k, keys[j]);
        }
    }
    let after = keys.insert(p, k);
    assert forall|i: int, j: int| 0 <= i < j < after.len() implies name_less(
        #[trigger] after[i],
        #[trigger] after[j],
    ) by {
        if j < p {
            assert(after[i] == keys[i] && after[j] == keys[j]);
        } else if j == p {
            assert(after[i] == keys[i]);
        } else if i < p {
            assert(after[i] == keys[i] && after[j] == keys[j - 1]);
        } else if i == p {
            assert(after[j] == keys[j - 1]);
            if j - 1 > p {
                lemma_name_less_transitive(k, keys[p], keys[j - 1]);
            }
        } else {
            assert(after[i] == keys[i - 1] && after[j] == keys[j - 1]);
        }
    }
}

/// Taking a name out keeps the names sorted.
pub proof fn lemma_remove_keeps_sorted(keys: Seq<Seq<char>>, i: int)
    requires
        strictly_sorted(keys),
        0 <= i < keys.len(),
    ensures
        strictly_sorted(keys.remove(i)),
        !keys.remove(i).contains(keys[i]),
{
    let after = keys.remove(i);
    assert forall|a: int, b: int| 0 <= a < b < after.len() implies name_less(
        #[trigger] after[a],
        #[trigger] after[b],
    ) by {
        let a0 = if a < i { a } else { a + 1 };
        let b0 = if b < i { b } else { b + 1 };
        assert(after[a] == keys[a0] && after[b] == keys[b0]);
    }
    lemma_sorted_no_duplicates(keys);
    assert forall|a: int| 0 <= a < after.len() implies after[a] != keys[i] by {
        let a0 = if a < i { a } else { a + 1 };
        assert(after[a] == keys[a0]);
    }
}

/// With distinct names, the mapping takes each name to the value at its
/// place, and holds no other name.
pub proof fn lemma_assoc_at<T>(keys: Seq<Seq<char>>, vals: Seq<T>, i: int)
    requires
        keys.no_duplicates(),
        0 <= i < keys.len(),
    ensures
        assoc(keys, vals).contains_key(keys[i]),
        assoc(keys, vals)[keys[i]] == vals[i],
{
    assert(keys.contains(keys[i]));
    assert(keys.index_of(keys[i]) == i);
}

/// Inserting a new name and its value at one place of both sequences
/// inserts the pair into the mapping.
pub proof fn lemma_assoc_insert<T>(keys: Seq<Seq<char>>, vals: Seq<T>, p: int, k: Seq<char>, v: T)
    requires
        keys.no_duplicates(),
        keys.len() == vals.len(),
        0 <= p <= keys.len(),
        !keys.contains(k),
    ensures
        keys.insert(p, k).no_duplicates(),
        assoc(keys.insert(p, k), vals.insert(p, v)) == assoc(keys, vals).insert(k, v),
{
    let keys2 = keys.insert(p, k);
    let vals2 = vals.insert(p, v);
    assert forall|i: int, j: int|
        0 <= i < keys2.len() && 0 <= j < keys2.len() && i != j implies keys2[i] != keys2[j] by {
        let i0 = if i < p { i } else { i - 1 };
        let j0 = if j < p { j } else { j - 1 };
        if i == p {
            assert(keys2[j] == keys[j0]);
        } else if j == p {
            assert(keys2[i] == keys[i0]);
        } else {
            assert(keys2[i] == keys[i0] && keys2[j] == keys[j0]);
        }
    }
    let lhs = assoc(keys2, vals2);
    let rhs = assoc(keys, vals).insert(k, v);
    assert forall|x: Seq<char>| lhs.contains_key(x) <==> rhs.contains_key(x) by {
        if lhs.contains_key(x) {
            let i = keys2.index_of(x);
            if i != p {
                let i0 = if i < p { i } else { i - 1 };
                assert(keys[i0] == x);
            }
        }
        if rhs.contains_key(x) {
            if x == k {
                assert(keys2[p] == x);
            } else {
                let i0 = keys.index_of(x);
                let i = if i0 < p { i0 } else { i0 + 1 };
                assert(keys2[i] == x);
            }
        }
    }
    assert forall|x: Seq<char>| lhs.contains_key(x) implies lhs[x] == rhs[x] by {
        let i = keys2.index_of(x);
        lemma_assoc_at(keys2, vals2, i);
        if i == p {
        } else {
            let i0 = if i < p { i } else { i - 1 };
            assert(keys[i0] == x);
            lemma_assoc_at(keys, vals, i0);
        }
    }
    assert(lhs =~= rhs);
}

/// Replacing the value at one place replaces the value of its name.
pub proof fn lemma_assoc_update<T>(keys: Seq<Seq<char>>, vals: Seq<T>, i: int, v: T)
    requires
        keys.no_duplicates(),
        keys.len() == vals.len(),
        0 <= i < keys.len(),
    ensures
        assoc(keys, vals.update(i, v)) == assoc(keys, vals).insert(keys[i], v),
{
    let vals2 = vals.update(i, v);
    let lhs = assoc(keys, vals2);
    let rhs = assoc(keys, vals).insert(keys[i], v);
    assert(keys.contains(keys[i]));
    assert forall|x: Seq<char>| lhs.contains_key(x) implies lhs[x] == rhs[x] by {
        let j = keys.index_of(x);
        lemma_assoc_at(keys, vals2, j);
        lemma_assoc_at(keys, vals, j);
    }
    assert(lhs =~= rhs);
}

/// Taking one place out of both sequences removes its name from the
/// mapping.
pub proof fn lemma_assoc_remove<T>(keys: Seq<Seq<char>>, vals: Seq<T>, i: int)
    requires
        keys.no_duplicates(),
        keys.len() == vals.len(),
        0 <= i < keys.len(),
    ensures
        keys.remove(i).no_duplicates(),
        assoc(keys.remove(i), vals.remove(i)) == assoc(keys, vals).remove(keys[i]),
{
    let keys2 = keys.remove(i);
    let vals2 = vals.remove(i);
    assert forall|a: int, b: int|
        0 <= a < keys2.len() && 0 <= b < keys2.len() && a != b implies keys2[a] != keys2[b] by {
        let a0 = if a < i { a } else { a + 1 };
        let b0 = if b < i { b } else { b + 1 };
        assert(keys2[a] == keys[a0] && keys2[b] == keys[b0]);
    }
    let lhs = assoc(keys2, vals2);
    let rhs = assoc(keys, vals).remove(keys[i]);
    assert forall|x: Seq<char>| lhs.contains_key(x) <==> rhs.contains_key(x) by {
        if lhs.contains_key(x) {
            let a = keys2.index_of(x);
            let a0 = if a < i { a } else { a + 1 };
            assert(keys[a0] == x);
        }
        if rhs.contains_key(x) {
            let a0 = keys.index_of(x);
            let a = if a0 < i { a0 } else { a0 - 1 };
            assert(keys2[a] == x);
        }
    }
    assert forall|x: Seq<char>| lhs.contains_key(x) implies lhs[x] == rhs[x] by {
        let a = keys2.index_of(x);
        let a0 = if a < i { a } else { a + 1 };
        assert(keys[a0] == x);
        lemma_assoc_at(keys2, vals2, a);
        lemma_assoc_at(keys, vals, a0);
    }
    assert(lhs =~= rhs);
}

/// The tree after a category `name` is created in `m`, or why it cannot be.
pub open spec fn created_category(m: TreeModel, name: Seq<char>) -> Result<TreeModel, VaultError> {
    if name.len() == 0 {
        Err(VaultError::InvariantViolation)
    } else if m.contains_key(name) {
        Err(VaultError::DuplicateName)
    } else {
        Ok(m.insert(name, Map::empty()))
    }
}

/// The tree after category `old` of `m` is renamed to `new`, or why it
/// cannot be.
pub open spec fn renamed_category(m: TreeModel, old: Seq<char>, new: Seq<char>) -> Result<
    TreeModel,
    VaultError,
> {
    if new.len() == 0 {
        Err(VaultError::InvariantViolation)
    } else if !m.contains_key(old) {
        Err(VaultError::NotFound)
    } else if m.contains_key(new) {
        Err(VaultError::DuplicateName)
    } else {
        Ok(m.remove(old).insert(new, m[old]))
    }
}

/// The tree after a subcategory `name` with empty text is created under
/// category `under` of `m`, or why it cannot be.
pub open spec fn created_subcategory(m: TreeModel, under: Seq<char>, name: Seq<char>) -> Result<
    TreeModel,
    VaultError,
> {
    if name.len() == 0 {
        Err(VaultError::InvariantViolation)
    } else if !m.contains_key(under) {
        Err(VaultError::NotFound)
    } else if m[under].contains_key(name) {
        Err(VaultError::DuplicateName)
    } else {
        Ok(m.insert(under, m[under].insert(name, Seq::empty())))
    }
}

/// The text that `m` holds for a subcategory, if the subcategory exists.
pub open spec fn stored_text(m: TreeModel, category: Seq<char>, name: Seq<char>) -> Option<
    Seq<char>,
> {
    if m.contains_key(category) && m[category].contains_key(name) {
        Some(m[category][name])
    } else {
        None
    }
}

/// The tree after `text` is written to an existing subcategory of `m`, or
/// `NotFound`.
pub open spec fn with_text(m: TreeModel, category: Seq<char>, name: Seq<char>, text: Seq<char>)
    -> Result<TreeModel, VaultError> {
    if stored_text(m, category, name) is Some {
        Ok(m.insert(category, m[category].insert(name, text)))
    } else {
        Err(VaultError::NotFound)
    }
}

/// Creating a category a second time fails with `DuplicateName`.
pub proof fn law_create_category_twice(m: TreeModel, name: Seq<char>)
    requires
        created_category(m, name) is Ok,
    ensures
        created_category(created_category(m, name).unwrap(), name) == Err::<TreeModel, VaultError>(
            VaultError::DuplicateName,
        ),
{
}

/// Creating a subcategory a second time fails with `DuplicateName`.
pub proof fn law_create_subcategory_twice(m: TreeModel, under: Seq<char>, name: Seq<char>)
    requires
        created_subcategory(m, under, name) is Ok,
    ensures
        created_subcategory(created_subcategory(m, under, name).unwrap(), under, name) == Err::<
            TreeModel,
            VaultError,
        >(VaultError::DuplicateName),
{
}

/// Renaming a category keeps every subcategory and its text under the new
/// name; the old name is gone, and no other category changes.
pub proof fn law_rename_preserves_content(m: TreeModel, old: Seq<char>, new: Seq<char>)
    requires
        renamed_category(m, old, new) is Ok,
    ensures
        ({
            let after = renamed_category(m, old, new).unwrap();
            &&& after.contains_key(new)
            &&& after[new] == m[old]
            &&& !after.contains_key(old)
            &&& forall|k: Seq<char>|
                k != old && k != new ==> (#[trigger] after.contains_key(k) <==> m.contains_key(k))
            &&& forall|k: Seq<char>|
                k != old && k != new && m.contains_key(k) ==> #[trigger] after[k] == m[k]
        }),
{
}

/// The names of a valid list are exactly the names of its mapping, each
/// taken to the value at its place.
pub proof fn lemma_assoc_sorted<T>(keys: Seq<Seq<char>>, vals: Seq<T>)
    requires
        strictly_sorted(keys),
        keys.len() == vals.len(),
    ensures
        keys.no_duplicates(),
        forall|k: Seq<char>| keys.contains(k) <==> #[trigger] assoc(keys, vals).contains_key(k),
        forall|i: int|
            0 <= i < keys.len() ==> assoc(keys, vals).contains_key(#[trigger] keys[i]) && assoc(
                keys,
                vals,
            )[keys[i]] == vals[i],
{
    lemma_sorted_no_duplicates(keys);
    assert forall|i: int| 0 <= i < keys.len() implies assoc(keys, vals).contains_key(
        #[trigger] keys[i],
    ) && assoc(keys, vals)[keys[i]] == vals[i] by {
        lemma_assoc_at(keys, vals, i);
    }
}

/// Inserting a category into a valid listing at the insertion point of its
/// name gives a valid listing, whose tree has the category added.
pub proof fn lemma_listing_insert(l: Listing, p: int, name: Seq<char>, secrets: SecretList)
    requires
        listing_valid(l),
        insertion_point(keys_of(l), name, p),
        name.len() > 0,
        names_valid(keys_of(secrets)),
    ensures
        listing_valid(l.insert(p, (name, secrets))),
        tree_of(l.insert(p, (name, secrets))) == tree_of(l).insert(name, secrets_of(secrets)),
{
    let l1 = l.insert(p, (name, secrets));
    lemma_insert_keeps_sorted(keys_of(l), name, p);
    lemma_sorted_no_duplicates(keys_of(l));
    assert(keys_of(l1) =~= keys_of(l).insert(p, name));
    assert(category_secrets(l1) =~= category_secrets(l).insert(p, secrets_of(secrets)));
    lemma_assoc_insert(keys_of(l), category_secrets(l), p, name, secrets_of(secrets));
    assert forall|i: int| 0 <= i < l1.len() implies names_valid(keys_of(#[trigger] l1[i].1)) by {
        if i < p {
            assert(l1[i] == l[i]);
        } else if i > p {
            assert(l1[i] == l[i - 1]);
        }
    }
    assert forall|i: int| 0 <= i < keys_of(l1).len() implies (#[trigger] keys_of(l1)[i]).len()
        > 0 by {
        if i < p {
            assert(keys_of(l1)[i] == keys_of(l)[i]);
        } else if i > p {
            assert(keys_of(l1)[i] == keys_of(l)[i - 1]);
        }
    }
}

/// Taking a category out of a valid listing gives a valid listing, whose
/// tree has the category removed.
pub proof fn lemma_listing_remove(l: Listing, i: int)
    requires
        listing_valid(l),
        0 <= i < l.len(),
    ensures
        listing_valid(l.remove(i)),
        tree_of(l.remove(i)) == tree_of(l).remove(l[i].0),
{
    let l1 = l.remove(i);
    lemma_remove_keeps_sorted(keys_of(l), i);
    lemma_sorted_no_duplicates(keys_of(l));
    assert(keys_of(l1) =~= keys_of(l).remove(i));
    assert(category_secrets(l1) =~= category_secrets(l).remove(i));
    lemma_assoc_remove(keys_of(l), category_secrets(l), i);
    assert forall|a: int| 0 <= a < l1.len() implies names_valid(keys_of(#[trigger] l1[a].1)) by {
        let a0 = if a < i { a } else { a + 1 };
        assert(l1[a] == l[a0]);
    }
    assert forall|a: int| 0 <= a < keys_of(l1).len() implies (#[trigger] keys_of(l1)[a]).len()
        > 0 by {
        let a0 = if a < i { a } else { a + 1 };
        assert(keys_of(l1)[a] == keys_of(l)[a0]);
    }
}

/// Replacing the subcategories of one category of a valid listing by
/// other valid ones gives a valid listing, whose tree has the category
/// replaced.
pub proof fn lemma_listing_update(l: Listing, i: int, secrets: SecretList)
    requires
        listing_valid(l),
        0 <= i < l.len(),
        names_valid(keys_of(secrets)),
    ensures
        listing_valid(l.update(i, (l[i].0, secrets))),
        tree_of(l.update(i, (l[i].0, secrets))) == tree_of(l).insert(l[i].0, secrets_of(secrets)),
{
    let l1 = l.update(i, (l[i].0, secrets));
    lemma_sorted_no_duplicates(keys_of(l));
    assert(keys_of(l1) =~= keys_of(l));
    assert(category_secrets(l1) =~= category_secrets(l).update(i, secrets_of(secrets)));
    lemma_assoc_update(keys_of(l), category_secrets(l), i, secrets_of(secrets));
    assert forall|a: int| 0 <= a < l1.len() implies names_valid(keys_of(#[trigger] l1[a].1)) by {
        if a != i {
            assert(l1[a] == l[a]);
        }
    }
}

/// Inserting a subcategory into a valid list at the insertion point of its
/// name gives a valid list, whose mapping has the subcategory added.
pub proof fn lemma_secrets_insert(s: SecretList, p: int, name: Seq<char>, text: Seq<char>)
    requires
        names_valid(keys_of(s)),
        insertion_point(keys_of(s), name, p),
        name.len() > 0,
    ensures
        names_valid(keys_of(s.insert(p, (name, text)))),
        secrets_of(s.insert(p, (name, text))) == secrets_of(s).insert(name, text),
{
    let s1 = s.insert(p, (name, text));
    lemma_insert_keeps_sorted(keys_of(s), name, p);
    lemma_sorted_no_duplicates(keys_of(s));
    assert(keys_of(s1) =~= keys_of(s).insert(p, name));
    assert(secret_texts(s1) =~= secret_texts(s).insert(p, text));
    lemma_assoc_insert(keys_of(s), secret_texts(s), p, name, text);
    assert forall|i: int| 0 <= i < keys_of(s1).len() implies (#[trigger] keys_of(s1)[i]).len()
        > 0 by {
        if i < p {
            assert(keys_of(s1)[i] == keys_of(s)[i]);
        } else if i > p {
            assert(keys_of(s1)[i] == keys_of(s)[i - 1]);
        }
    }
}

/// Replacing the text at one place of a valid list gives a valid list,
/// whose mapping has the text of that subcategory replaced.
pub proof fn lemma_secrets_update(s: SecretList, i: int, text: Seq<char>)
    requires
        names_valid(keys_of(s)),
        0 <= i < s.len(),
    ensures
        names_valid(keys_of(s.update(i, (s[i].0, text)))),
        secrets_of(s.update(i, (s[i].0, text))) == secrets_of(s).insert(s[i].0, text),
{
    let s1 = s.update(i, (s[i].0, text));
    lemma_sorted_no_duplicates(keys_of(s));
    assert(keys_of(s1) =~= keys_of(s));
    assert(secret_texts(s1) =~= secret_texts(s).update(i, text));
    lemma_assoc_update(keys_of(s), secret_texts(s), i, text);
}

/// Finds `name` among sorted named items: whether it occurs, and the place
/// where it stands or would have to be inserted.
fn locate<V: DeepView>(items: &Vec<(String, V)>, name: &str) -> (r: (bool, usize))
    requires
        strictly_sorted(keys_of(items.deep_view())),
    ensures
        r.1 <= items@.len(),
        r.0 ==> r.1 < items@.len() && keys_of(items.deep_view())[r.1 as int] == name@,
        r.0 == keys_of(items.deep_view()).contains(name@),
        !r.0 ==> insertion_point(keys_of(items.deep_view()), name@, r.1 as int),
{
    let ghost keys = keys_of(items.deep_view());
    let mut i: usize = 0;
    while i < items.len()
        invariant
            i <= items@.len(),
            keys == keys_of(items.deep_view()),
            keys.len() == items@.len(),
            strictly_sorted(keys),
            forall|j: int| 0 <= j < i ==> name_less(#[trigger] keys[j], name@),
        decreases items@.len() - i,
    {
        assert(keys[i as int] == items@[i as int].0@);
        match compare_names(items[i].0.as_str(), name) {
            NameOrder::Before => {
                i += 1;
            },
            NameOrder::Same => {
                return (true, i);
            },
            NameOrder::After => {
                proof {
                    lemma_insert_keeps_sorted(keys, name@, i as int);
                }
                return (false, i);
            },
        }
    }
    proof {
        lemma_insert_keeps_sorted(keys, name@, i as int);
    }
    (false, i)
}

/// Whether the names of `items` are non-empty and strictly sorted.
fn names_in_order<V: DeepView>(items: &Vec<(String, V)>) -> (ok: bool)
    ensures
        ok == names_valid(keys_of(items.deep_view())),
{
    let ghost keys = keys_of(items.deep_view());
    let mut i: usize = 0;
    while i < items.len()
        invariant
            i <= items@.len(),
            keys == keys_of(items.deep_view()),
            keys.len() == items@.len(),
            names_valid(keys.take(i as int)),
        decreases items@.len() - i,
    {
        assert(keys[i as int] == items@[i as int].0@);
        if items[i].0.as_str().is_empty() {
            return false;
        }
        if i > 0 {
            assert(keys[i - 1] == items@[i - 1].0@);
            match compare_names(items[i - 1].0.as_str(), items[i].0.as_str()) {
                NameOrder::Before => {},
                _ => {
                    proof {
                        if name_less(keys[i - 1], keys[i as int]) {
                            lemma_name_less_asymmetric(keys[i - 1], keys[i as int]);
                        }
                    }
                    return false;
                },
            }
        }
        proof {
            let before = keys.take(i as int);
            let after = keys.take(i + 1);
            assert forall|a: int, b: int| 0 <= a < b < after.len() implies name_less(
                #[trigger] after[a],
                #[trigger] after[b],
            ) by {
                if b < i {
                    assert(before[a] == after[a] && before[b] == after[b]);
                } else if a < i - 1 {
                    assert(before[a] == after[a] && before[i - 1] == keys[i - 1]);
                    lemma_name_less_transitive(keys[a], keys[i - 1], keys[i as int]);
                }
            }
            assert forall|a: int| 0 <= a < after.len() implies (#[trigger] after[a]).len() > 0 by {
                if a < i {
                    assert(before[a] == after[a]);
                }
            }
        }
        i += 1;
    }
    assert(keys.take(i as int) =~= keys);
    true
}

/// The secrets of a vault: a two-level tree of categories and
/// subcategories.
#[derive(Clone, Debug, PartialEq, Eq)]
pub struct SecretsTree {
    categories: Vec<(String, Vec<(String, String)>)>,
}

impl View for SecretsTree {
    type V = TreeModel;

    open spec fn view(&self) -> TreeModel {
        tree_of(self.listing())
    }
}

impl SecretsTree {
    /// The categories in name order, each with its subcategories in name
    /// order.
    pub closed spec fn listing(&self) -> Listing {
        self.categories.deep_view()
    }

    /// Names are non-empty and unique within their scope, and both levels
    /// are sorted.
    pub open spec fn wf(&self) -> bool {
        listing_valid(self.listing())
    }

    /// A tree without categories.
    pub fn new() -> (tree: Self)
        ensures
            tree.wf(),
            tree.listing() == Seq::<(Seq<char>, SecretList)>::empty(),
            tree@ == Map::<Seq<char>, Secrets>::empty(),
    {
        let tree = SecretsTree { categories: Vec::new() };
        assert(tree.listing() =~= Seq::<(Seq<char>, SecretList)>::empty());
        assert(tree@ =~= Map::<Seq<char>, Secrets>::empty());
        tree
    }

    /// The tree that a listing stands for, if the listing is valid.
    pub fn from_entries(entries: Vec<(String, Vec<(String, String)>)>) -> (tree: Option<Self>)
        ensures
            match tree {
                Some(t) => listing_valid(entries.deep_view()) && t.wf() && t.listing()
                    == entries.deep_view(),
                None => !listing_valid(entries.deep_view()),
            },
    {
        if !names_in_order(&entries) {
            return None;
        }
        let mut i: usize = 0;
        while i < entries.len()
            invariant
                i <= entries@.len(),
                forall|j: int| 0 <= j < i ==> names_valid(keys_of(#[trigger] entries.deep_view()[j].1)),
            decreases entries@.len() - i,
        {
            assert(entries.deep_view()[i as int].1 == entries@[i as int].1.deep_view());
            if !names_in_order(&entries[i].1) {
                return None;
            }
            i += 1;
        }
        Some(SecretsTree { categories: entries })
    }

    /// The categories in name order, each with its subcategories in name
    /// order.
    pub fn entries(&self) -> (entries: &Vec<(String, Vec<(String, String)>)>)
        ensures
            entries.deep_view() == self.listing(),
    {
        &self.categories
    }

    /// Whether a category of that name exists.
    pub fn contains_category(&self, name: &str) -> (found: bool)
        requires
            self.wf(),
        ensures
            found == self@.contains_key(name@),
    {
        let (found, _) = locate(&self.categories, name);
        found
    }

    /// Whether the category exists and holds a subcategory of that name.
    pub fn contains_subcategory(&self, category: &str, name: &str) -> (found: bool)
        requires
            self.wf(),
        ensures
            found == (stored_text(self@, category@, name@) is Some),
    {
        self.text(category, name).is_some()
    }

    /// The text of a subcategory, if the subcategory exists.
    pub fn text(&self, category: &str, name: &str) -> (text: Option<&String>)
        requires
            self.wf(),
        ensures
            match text {
                Some(t) => stored_text(self@, category@, name@) == Some(t@),
                None => stored_text(self@, category@, name@) is None,
            },
    {
        let ghost l = self.listing();
        let (found, ci) = locate(&self.categories, category);
        if !found {
            return None;
        }
        proof {
            lemma_assoc_sorted(keys_of(l), category_secrets(l));
            assert(l[ci as int].1 == self.categories@[ci as int].1.deep_view());
            lemma_assoc_sorted(keys_of(l[ci as int].1), secret_texts(l[ci as int].1));
        }
        let secrets = &self.categories[ci].1;
        let (found, si) = locate(secrets, name);
        if !found {
            return None;
        }
        assert(l[ci as int].1[si as int].1 == secrets@[si as int].1@);
        Some(&secrets[si].1)
    }

    /// The category names, in name order.
    pub fn category_names(&self) -> (names: Vec<String>)
        requires
            self.wf(),
        ensures
            names.deep_view() == keys_of(self.listing()),
            strictly_sorted(names.deep_view()),
            forall|k: Seq<char>| names.deep_view().contains(k) <==> #[trigger] self@.contains_key(k),
    {
        let ghost l = self.listing();
        let mut names: Vec<String> = Vec::new();
        let mut i: usize = 0;
        while i < self.categories.len()
            invariant
                i <= self.categories@.len(),
                l == self.listing(),
                names.deep_view() == keys_of(l).take(i as int),
            decreases self.categories@.len() - i,
        {
            let ghost before = names.deep_view();
            let name = self.categories[i].0.clone();
            assert(name@ == keys_of(l)[i as int]);
            names.push(name);
            assert(names.deep_view() =~= before.push(keys_of(l)[i as int]));
            assert(names.deep_view() =~= keys_of(l).take(i + 1));
            i += 1;
        }
        proof {
            assert(keys_of(l).take(i as int) =~= keys_of(l));
            lemma_assoc_sorted(keys_of(l), category_secrets(l));
        }
        names
    }

    /// The subcategory names of a category, in name order; `None` if the
    /// category does not exist.
    pub fn subcategory_names(&self, category: &str) -> (names: Option<Vec<String>>)
        requires
            self.wf(),
        ensures
            names is Some == self@.contains_key(category@),
            names matches Some(v) ==> {
                &&& strictly_sorted(v.deep_view())
                &&& forall|k: Seq<char>|
                    v.deep_view().contains(k) <==> #[trigger] self@[category@].contains_key(k)
            },
    {
        let ghost l = self.listing();
        let (found, ci) = locate(&self.categories, category);
        if !found {
            return None;
        }
        let secrets = &self.categories[ci].1;
        let ghost sl = l[ci as int].1;
        proof {
            lemma_assoc_sorted(keys_of(l), category_secrets(l));
            assert(sl == secrets.deep_view());
        }
        let mut names: Vec<String> = Vec::new();
        let mut i: usize = 0;
        while i < secrets.len()
            invariant
                i <= secrets@.len(),
                sl == secrets.deep_view(),
                names.deep_view() == keys_of(sl).take(i as int),
            decreases secrets@.len() - i,
        {
            let ghost before = names.deep_view();
            let name = secrets[i].0.clone();
            assert(name@ == keys_of(sl)[i as int]);
            names.push(name);
            assert(names.deep_view() =~= before.push(keys_of(sl)[i as int]));
            assert(names.deep_view() =~= keys_of(sl).take(i + 1));
            i += 1;
        }
        proof {
            assert(keys_of(sl).take(i as int) =~= keys_of(sl));
            lemma_assoc_sorted(keys_of(sl), secret_texts(sl));
        }
        Some(names)
    }

    /// Creates an empty category. Fails with `InvariantViolation` on an
    /// empty name and with `DuplicateName` if the category exists; the tree
    /// is then unchanged.
    pub fn create_category(&mut self, name: &str) -> (result: Result<(), VaultError>)
        requires
            old(self).wf(),
        ensures
            final(self).wf(),
            match created_category(old(self)@, name@) {
                Ok(m) => result is Ok && final(self)@ == m,
                Err(e) => result == Err::<(), VaultError>(e) && final(self).listing() == old(
                    self,
                ).listing(),
            },
    {
        if name.is_empty() {
            return Err(VaultError::InvariantViolation);
        }
        let (found, at) = locate(&self.categories, name);
        if found {
            return Err(VaultError::DuplicateName);
        }
        let ghost l0 = self.listing();
        self.categories.insert(at, (String::from_str(name), Vec::new()));
        proof {
            let l1 = self.listing();
            let fresh: SecretList = Seq::empty();
            assert(l1 =~= l0.insert(at as int, (name@, fresh))) by {
                assert(l1[at as int].1 =~= fresh);
            }
            lemma_listing_insert(l0, at as int, name@, fresh);
            assert(secrets_of(fresh) =~= Map::<Seq<char>, Seq<char>>::empty());
        }
        Ok(())
    }

    /// Renames a category, keeping its subcategories and their texts.
    /// Fails with `InvariantViolation` on an empty new name, `NotFound` if
    /// `old_name` does not exist and `DuplicateName` if `new_name` does; the
    /// tree is then unchanged.
    pub fn rename_category(&mut self, old_name: &str, new_name: &str) -> (result: Result<
        (),
        VaultError,
    >)
        requires
            old(self).wf(),
        ensures
            final(self).wf(),
            match renamed_category(old(self)@, old_name@, new_name@) {
                Ok(m) => result is Ok && final(self)@ == m,
                Err(e) => result == Err::<(), VaultError>(e) && final(self).listing() == old(
                    self,
                ).listing(),
            },
    {
        if new_name.is_empty() {
            return Err(VaultError::InvariantViolation);
        }
        let (found, from) = locate(&self.categories, old_name);
        if !found {
            return Err(VaultError::NotFound);
        }
        let (taken, _) = locate(&self.categories, new_name);
        if taken {
            return Err(VaultError::DuplicateName);
        }
        let ghost l0 = self.listing();
        let (_, secrets) = self.categories.remove(from);
        let ghost l1 = self.listing();
        proof {
            assert(l1 =~= l0.remove(from as int));
            lemma_listing_remove(l0, from as int);
            assert(secrets.deep_view() == l0[from as int].1);
            assert(!keys_of(l1).contains(new_name@)) by {
                if keys_of(l1).contains(new_name@) {
                    let a = keys_of(l1).index_of(new_name@);
                    let a0 = if a < from { a } else { a + 1 };
                    assert(keys_of(l0)[a0] == new_name@);
                }
            }
        }
        let (_, to) = locate(&self.categories, new_name);
        self.categories.insert(to, (String::from_str(new_name), secrets));
        proof {
            let l2 = self.listing();
            assert(l2 =~= l1.insert(to as int, (new_name@, l0[from as int].1)));
            lemma_listing_insert(l1, to as int, new_name@, l0[from as int].1);
            lemma_assoc_sorted(keys_of(l0), category_secrets(l0));
        }
        Ok(())
    }

    /// Creates a subcategory with empty text under a category. Fails with
    /// `InvariantViolation` on an empty name, `NotFound` if the category
    /// does not exist and `DuplicateName` if it holds that name already; the
    /// tree is then unchanged.
    pub fn create_subcategory(&mut self, under: &str, name: &str) -> (result: Result<
        (),
        VaultError,
    >)
        requires
            old(self).wf(),
        ensures
            final(self).wf(),
            match created_subcategory(old(self)@, under@, name@) {
                Ok(m) => result is Ok && final(self)@ == m,
                Err(e) => result == Err::<(), VaultError>(e) && final(self).listing() == old(
                    self,
                ).listing(),
            },
    {
        if name.is_empty() {
            return Err(VaultError::InvariantViolation);
        }
        let ghost l0 = self.listing();
        let (found, ci) = locate(&self.categories, under);
        if !found {
            return Err(VaultError::NotFound);
        }
        proof {
            lemma_assoc_sorted(keys_of(l0), category_secrets(l0));
            assert(l0[ci as int].1 == self.categories@[ci as int].1.deep_view());
            lemma_assoc_sorted(keys_of(l0[ci as int].1), secret_texts(l0[ci as int].1));
        }
        let (taken, at) = locate(&self.categories[ci].1, name);
        if taken {
            return Err(VaultError::DuplicateName);
        }
        self.categories[ci].1.insert(at, (String::from_str(name), String::new()));
        proof {
            let l1 = self.listing();
            let s0 = l0[ci as int].1;
            let empty: Seq<char> = Seq::empty();
            let s1 = s0.insert(at as int, (name@, empty));
            assert(l1[ci as int].1 =~= s1);
            assert(l1 =~= l0.update(ci as int, (under@, s1)));
            lemma_secrets_insert(s0, at as int, name@, empty);
            lemma_listing_update(l0, ci as int, s1);
        }
        Ok(())
    }

    /// Writes `text` to an existing subcategory. Fails with `NotFound` if
    /// the category or the subcategory does not exist; the tree is then
    /// unchanged.
    pub fn set_text(&mut self, category: &str, name: &str, text: String) -> (result: Result<
        (),
        VaultError,
    >)
        requires
            old(self).wf(),
        ensures
            final(self).wf(),
            match with_text(old(self)@, category@, name@, text@) {
                Ok(m) => result is Ok && final(self)@ == m,
                Err(e) => result == Err::<(), VaultError>(e) && final(self).listing() == old(
                    self,
                ).listing(),
            },
    {
        let ghost l0 = self.listing();
        let (found, ci) = locate(&self.categories, category);
        if !found {
            return Err(VaultError::NotFound);
        }
        proof {
            lemma_assoc_sorted(keys_of(l0), category_secrets(l0));
            assert(l0[ci as int].1 == self.categories@[ci as int].1.deep_view());
            lemma_assoc_sorted(keys_of(l0[ci as int].1), secret_texts(l0[ci as int].1));
        }
        let (found, si) = locate(&self.categories[ci].1, name);
        if !found {
            return Err(VaultError::NotFound);
        }
        let ghost new_text = text@;
        self.categories[ci].1[si].1 = text;
        proof {
            let l1 = self.listing();
            let s0 = l0[ci as int].1;
            let s1 = s0.update(si as int, (name@, new_text));
            assert(l1[ci as int].1 =~= s1);
            assert(l1 =~= l0.update(ci as int, (category@, s1)));
            lemma_secrets_update(s0, si as int, new_text);
            lemma_listing_update(l0, ci as int, s1);
        }
        Ok(())
    }
}

} // verus!
