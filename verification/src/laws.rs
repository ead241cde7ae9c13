//! What holds of generated passwords and of the store, whatever they
//! contain.
//!
//! The operations of the library are stated over views; the laws below
//! relate those statements to each other.

use crate::builders::generated_from;
use crate::charset::{lemma_class_count_positive, CharClass};
use crate::decimal::{decimal, lemma_decimal_injective, lemma_version_of_decimal, version_of};
use crate::error::Error;
use crate::folder::{
    has_versions, holds_version, is_latest, latest, lemma_latest_exists, lemma_latest_unique, Files,
};
use crate::length::Allocation;
use crate::password::PasswordView;
use crate::repository::RepositoryView;
use crate::version::PasswordVersionView;
use vstd::prelude::*;

verus! {

/// A generated text has the length that was asked for, and holds a
/// character of every class of which at least one was asked for.
pub proof fn law_generated_text_holds_classes(text: Seq<char>, allocation: Allocation)
    requires
        generated_from(text, allocation),
    ensures
        text.len() == allocation.lower + allocation.upper + allocation.punctuation
            + allocation.numbers,
        allocation.lower >= 1 ==> exists|i: int|
            0 <= i < text.len() && CharClass::Lower.holds(#[trigger] text[i]),
        allocation.upper >= 1 ==> exists|i: int|
            0 <= i < text.len() && CharClass::Upper.holds(#[trigger] text[i]),
        allocation.punctuation >= 1 ==> exists|i: int|
            0 <= i < text.len() && CharClass::Punctuation.holds(#[trigger] text[i]),
        allocation.numbers >= 1 ==> exists|i: int|
            0 <= i < text.len() && CharClass::Digit.holds(#[trigger] text[i]),
{
    lemma_class_count_positive(text, CharClass::Lower);
    lemma_class_count_positive(text, CharClass::Upper);
    lemma_class_count_positive(text, CharClass::Punctuation);
    lemma_class_count_positive(text, CharClass::Digit);
}

/// The version numbered `version` of the password `name` with the secret
/// `value`.
pub open spec fn version_view(
    name: Seq<char>,
    value: Seq<char>,
    version: nat,
) -> PasswordVersionView {
    PasswordVersionView { password: PasswordView { name, value }, version }
}

/// The files of a folder that are version files: those whose names are
/// numbers.
pub open spec fn version_files(files: Files) -> Files {
    files.restrict(Set::new(|name: Seq<char>| version_of(name) is Some))
}

/// Writing the file of a version above all others makes it the latest.
pub proof fn lemma_latest_after_write(files: Files, version: u32, value: Seq<char>)
    requires
        version >= 1,
        forall|other: u32| #[trigger] holds_version(files, other) ==> other <= version,
    ensures
        is_latest(files.insert(decimal(version as nat), value), version),
        latest(files.insert(decimal(version as nat), value)) == version,
{
    let file = decimal(version as nat);
    let written = files.insert(file, value);
    lemma_version_of_decimal(version);
    assert(written.contains_key(file));
    assert(holds_version(written, version));
    assert forall|other: u32| #[trigger] holds_version(written, other) implies other <= version by {
        let name = choose|name: Seq<char>| #[trigger]
            written.contains_key(name) && version_of(name) == Some(other);
        if name != file {
            assert(files.contains_key(name));
            assert(holds_version(files, other));
        }
    }
    lemma_latest_unique(written, version);
}

/// A password that was added can be read back: as its latest version, and
/// as version one.
pub proof fn law_add_then_get(state: RepositoryView, name: Seq<char>, value: Seq<char>)
    requires
        !state.present(name),
    ensures
        state.after_add(name, value).present(name),
        state.after_add(name, value).latest_version(name) == 1,
        state.after_add(name, value).lookup(name, None) == Ok::<PasswordVersionView, Error>(
            version_view(name, value, 1),
        ),
        state.after_add(name, value).lookup(name, Some(1u32)) == Ok::<PasswordVersionView, Error>(
            version_view(name, value, 1),
        ),
        state.after_add(name, value).initialized,
        state.after_add(name, value).folders.contains_key(name),
{
    let files = state.files(name);
    assert forall|other: u32| #[trigger] holds_version(files, other) implies other <= 1 by {
        if other >= 1 {
            assert(has_versions(files));
        }
    }
    lemma_latest_after_write(files, 1, value);
}

/// An update makes one more version, numbered after the latest: a lookup
/// then gives the new secret, and every earlier version reads as before.
pub proof fn law_update_then_get(state: RepositoryView, name: Seq<char>, value: Seq<char>)
    requires
        state.present(name),
        state.latest_version(name) < u32::MAX,
    ensures
        ({
            let next = (state.latest_version(name) + 1) as u32;
            let after = state.after_update(name, value);
            &&& after.present(name)
            &&& after.latest_version(name) == next
            &&& after.lookup(name, None) == Ok::<PasswordVersionView, Error>(
                version_view(name, value, next as nat),
            )
            &&& after.lookup(name, Some(next)) == Ok::<PasswordVersionView, Error>(
                version_view(name, value, next as nat),
            )
            &&& forall|earlier: u32|
                earlier != next ==> #[trigger] after.lookup(name, Some(earlier)) == state.lookup(
                    name,
                    Some(earlier),
                )
        }),
{
    let files = state.files(name);
    let next = (state.latest_version(name) + 1) as u32;
    let after = state.after_update(name, value);
    lemma_latest_exists(files);
    assert forall|other: u32| #[trigger] holds_version(files, other) implies other <= next by {}
    lemma_latest_after_write(files, next, value);
    assert(after.files(name) == files.insert(decimal(next as nat), value));
    assert forall|earlier: u32| earlier != next implies #[trigger] after.lookup(
        name,
        Some(earlier),
    ) == state.lookup(name, Some(earlier)) by {
        if decimal(earlier as nat) == decimal(next as nat) {
            lemma_decimal_injective(earlier, next);
        }
    }
}

/// After an add and an update the latest version is the second, with the
/// new secret, and the first still holds the old one.
pub proof fn law_add_update_then_get(
    state: RepositoryView,
    name: Seq<char>,
    first: Seq<char>,
    second: Seq<char>,
)
    requires
        !state.present(name),
    ensures
        ({
            let after = state.after_add(name, first).after_update(name, second);
            &&& after.lookup(name, None) == Ok::<PasswordVersionView, Error>(
                version_view(name, second, 2),
            )
            &&& after.lookup(name, Some(1u32)) == Ok::<PasswordVersionView, Error>(
                version_view(name, first, 1),
            )
            &&& after.lookup(name, Some(2u32)) == Ok::<PasswordVersionView, Error>(
                version_view(name, second, 2),
            )
        }),
{
    law_add_then_get(state, name, first);
    law_update_then_get(state.after_add(name, first), name, second);
}

/// What is written for one password changes no lookup of another.
pub proof fn law_other_passwords_untouched(
    state: RepositoryView,
    name: Seq<char>,
    file: Seq<char>,
    content: Seq<char>,
    other: Seq<char>,
    version: Option<u32>,
)
    requires
        other != name,
    ensures
        state.with_file(name, file, content).lookup(other, version) == state.lookup(other, version),
        state.after_remove(name).lookup(other, version) == state.lookup(other, version),
{
    assert(state.with_file(name, file, content).files(other) == state.files(other));
    assert(state.after_remove(name).files(other) == state.files(other));
}

/// A password that was removed is gone, with every version of it; removing
/// a password that has no folder changes nothing.
pub proof fn law_remove_then_get(state: RepositoryView, name: Seq<char>, version: Option<u32>)
    ensures
        !state.after_remove(name).present(name),
        state.after_remove(name).lookup(name, version) == Err::<PasswordVersionView, Error>(
            Error::NotFound,
        ),
        !state.folders.contains_key(name) ==> state.after_remove(name) == state,
{
    let after = state.after_remove(name);
    assert(after.files(name) == Files::empty());
    assert forall|held: u32| !#[trigger] holds_version(Files::empty(), held) by {}
    if !state.folders.contains_key(name) {
        assert(after.folders =~= state.folders);
    }
}

/// Two folders with the same version files agree on which versions they
/// hold, on the latest of them, and on the file of every version.
pub proof fn lemma_same_version_files(left: Files, right: Files)
    requires
        forall|file: Seq<char>|
            version_of(file) is Some ==> (#[trigger] left.contains_key(file)
                == right.contains_key(file)),
        forall|file: Seq<char>|
            version_of(file) is Some && #[trigger] left.contains_key(file) ==> left[file]
                == right[file],
    ensures
        forall|held: u32| #[trigger] holds_version(left, held) == holds_version(right, held),
        has_versions(left) == has_versions(right),
        has_versions(left) ==> latest(left) == latest(right),
        forall|wanted: u32|
            left.contains_key(#[trigger] decimal(wanted as nat)) == right.contains_key(
                decimal(wanted as nat),
            ),
        forall|wanted: u32|
            left.contains_key(#[trigger] decimal(wanted as nat)) ==> left[decimal(wanted as nat)]
                == right[decimal(wanted as nat)],
{
    assert forall|held: u32| #[trigger] holds_version(left, held) == holds_version(right, held) by {
        if holds_version(left, held) {
            let file = choose|file: Seq<char>| #[trigger]
                left.contains_key(file) && version_of(file) == Some(held);
            assert(right.contains_key(file));
        }
        if holds_version(right, held) {
            let file = choose|file: Seq<char>| #[trigger]
                right.contains_key(file) && version_of(file) == Some(held);
            assert(left.contains_key(file));
        }
    }
    if has_versions(left) {
        let held = choose|held: u32| held >= 1 && #[trigger] holds_version(left, held);
        assert(holds_version(right, held));
        assert(has_versions(right));
        lemma_latest_exists(left);
        let highest = latest(left);
        assert(holds_version(right, highest));
        assert forall|other: u32| #[trigger] holds_version(right, other) implies other
            <= highest by {
            assert(holds_version(left, other));
        }
        lemma_latest_unique(right, highest);
    }
    if has_versions(right) {
        let held = choose|held: u32| held >= 1 && #[trigger] holds_version(right, held);
        assert(holds_version(left, held));
    }
    assert forall|wanted: u32|
        left.contains_key(#[trigger] decimal(wanted as nat)) == right.contains_key(
            decimal(wanted as nat),
        ) && (left.contains_key(decimal(wanted as nat)) ==> left[decimal(wanted as nat)]
            == right[decimal(wanted as nat)]) by {
        lemma_version_of_decimal(wanted);
    }
}

/// Only the version files of a folder count: whether the password is
/// present, which version is its latest, and what a lookup gives are the
/// same with and without the files whose names are no numbers.
pub proof fn law_corruption_tolerance(state: RepositoryView, name: Seq<char>, version: Option<u32>)
    ensures
        ({
            let clean = RepositoryView {
                root: state.root,
                initialized: state.initialized,
                folders: state.folders.insert(name, version_files(state.files(name))),
            };
            &&& clean.present(name) == state.present(name)
            &&& state.present(name) ==> clean.latest_version(name) == state.latest_version(name)
            &&& clean.lookup(name, version) == state.lookup(name, version)
        }),
{
    let files = state.files(name);
    let kept = version_files(files);
    let clean = RepositoryView {
        root: state.root,
        initialized: state.initialized,
        folders: state.folders.insert(name, kept),
    };
    assert(clean.files(name) == kept);
    lemma_same_version_files(files, kept);
}

/// A file whose name is no number, written into a folder, changes neither
/// the latest version nor any lookup.
pub proof fn law_corrupted_file_is_passed_over(
    state: RepositoryView,
    name: Seq<char>,
    file: Seq<char>,
    content: Seq<char>,
    version: Option<u32>,
)
    requires
        version_of(file) is None,
    ensures
        state.with_file(name, file, content).present(name) == state.present(name),
        state.present(name) ==> state.with_file(name, file, content).latest_version(name)
            == state.latest_version(name),
        state.with_file(name, file, content).lookup(name, version) == state.lookup(name, version),
{
    let files = state.files(name);
    let more = files.insert(file, content);
    assert(state.with_file(name, file, content).files(name) == more);
    lemma_same_version_files(files, more);
}

} // verus!
