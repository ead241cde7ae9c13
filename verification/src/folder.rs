//! The files of one password: one file for each version, named by its number.

use crate::assoc::{
    as_map, distinct_keys, has_key, key_index, lemma_as_map_at, lemma_as_map_empty,
    lemma_as_map_key, lemma_as_map_push, lemma_as_map_remove,
};
use crate::decimal::{parse_version, version_of};
use crate::text::enumerates;
use vstd::prelude::*;

verus! {

/// The files of a folder: their contents by their names.
pub type Files = Map<Seq<char>, Seq<char>>;

/// One of the files is that of version `version`.
pub open spec fn holds_version(files: Files, version: u32) -> bool {
    exists|name: Seq<char>|
        #[trigger] files.contains_key(name) && version_of(name) == Some(version)
}

/// The files hold a version of the password. Version numbers start at one: a
/// file named zero is none.
pub open spec fn has_versions(files: Files) -> bool {
    exists|version: u32| version >= 1 && #[trigger] holds_version(files, version)
}

/// `version` is the highest version among the files.
pub open spec fn is_latest(files: Files, version: u32) -> bool {
    &&& version >= 1
    &&& holds_version(files, version)
    &&& forall|other: u32| #[trigger] holds_version(files, other) ==> other <= version
}

/// The highest version among the files, where they hold one.
pub open spec fn latest(files: Files) -> u32 {
    choose|version: u32| is_latest(files, version)
}

/// The names of the files that are no version files: names that are no
/// numbers.
pub open spec fn corrupted_names(files: Files) -> Set<Seq<char>> {
    Set::new(|name: Seq<char>| files.contains_key(name) && version_of(name) is None)
}

/// Where there are no files there is no version.
pub proof fn lemma_no_versions()
    ensures
        !has_versions(Files::empty()),
{
    assert forall|version: u32| !#[trigger] holds_version(Files::empty(), version) by {}
}

/// There is only one highest version.
pub proof fn lemma_latest_unique(files: Files, version: u32)
    requires
        is_latest(files, version),
    ensures
        latest(files) == version,
        has_versions(files),
{
    let chosen = latest(files);
    assert(is_latest(files, chosen));
    assert(holds_version(files, chosen));
    assert(holds_version(files, version));
}

/// Among files that hold a version there is a highest one, since version
/// numbers are bounded.
pub proof fn lemma_latest_exists(files: Files)
    requires
        has_versions(files),
    ensures
        is_latest(files, latest(files)),
{
    let held = choose|version: u32| version >= 1 && #[trigger] holds_version(files, version);
    lemma_highest_between(files, held, u32::MAX);
}

/// Searching downwards from `high` finds the highest version, when one is
/// held at `low` and none above `high`.
proof fn lemma_highest_between(files: Files, low: u32, high: u32)
    requires
        1 <= low <= high,
        holds_version(files, low),
        forall|other: u32| #[trigger] holds_version(files, other) ==> other <= high,
    ensures
        is_latest(files, latest(files)),
    decreases high - low,
{
    if holds_version(files, high) {
        assert(is_latest(files, high));
    } else {
        assert forall|other: u32| #[trigger] holds_version(files, other) implies other <= (high
            - 1) as u32 by {
            assert(other != high);
        }
        lemma_highest_between(files, low, (high - 1) as u32);
    }
}

/// A file of the folder: its name and what it holds.
struct Entry {
    name: String,
    content: String,
}

/// The names and contents of a list of files.
spec fn entry_pairs(entries: Seq<Entry>) -> Seq<(Seq<char>, Seq<char>)> {
    entries.map_values(|entry: Entry| (entry.name@, entry.content@))
}

/// A list of no files is the empty map, and holds no name twice.
proof fn lemma_no_entries()
    ensures
        entry_pairs(Seq::<Entry>::empty()) == Seq::<(Seq<char>, Seq<char>)>::empty(),
        as_map(entry_pairs(Seq::<Entry>::empty())) == Files::empty(),
        distinct_keys(entry_pairs(Seq::<Entry>::empty())),
{
    lemma_as_map_empty::<Seq<char>>();
    assert(entry_pairs(Seq::<Entry>::empty()) =~= Seq::<(Seq<char>, Seq<char>)>::empty());
}

/// The folder of one password, with the files in it.
pub struct Folder {
    name: String,
    entries: Vec<Entry>,
}

impl View for Folder {
    type V = Files;

    closed spec fn view(&self) -> Files {
        as_map(entry_pairs(self.entries@))
    }
}

impl Folder {
    #[verifier::type_invariant]
    spec fn well_formed(self) -> bool {
        distinct_keys(entry_pairs(self.entries@))
    }

    /// The name of the folder, which is that of the password.
    pub closed spec fn label(self) -> Seq<char> {
        self.name@
    }

    /// The empty folder called `name`.
    pub fn new(name: String) -> (folder: Folder)
        ensures
            folder@ == Files::empty(),
            folder.label() == name@,
    {
        proof {
            lemma_no_entries();
        }
        Folder { name, entries: Vec::new() }
    }

    /// The name of the folder.
    pub fn name(&self) -> (name: &String)
        ensures
            name@ == self.label(),
    {
        &self.name
    }

    /// Where the file called `file` stands among the entries, if it is there.
    fn position(&self, file: &String) -> (found: Option<usize>)
        ensures
            match found {
                Some(at) => at < self.entries.len() && self.entries[at as int].name@ == file@
                    && self@.contains_key(file@) && self@[file@]
                    == self.entries[at as int].content@,
                None => !self@.contains_key(file@),
            },
    {
        proof {
            use_type_invariant(self);
        }
        let ghost pairs = entry_pairs(self.entries@);
        let mut at: usize = 0;
        while at < self.entries.len()
            invariant
                at <= self.entries.len(),
                pairs == entry_pairs(self.entries@),
                distinct_keys(pairs),
                forall|i: int| 0 <= i < at ==> (#[trigger] pairs[i]).0 != file@,
            decreases self.entries.len() - at,
        {
            if self.entries[at].name == *file {
                proof {
                    lemma_as_map_at(pairs, at as int);
                }
                return Some(at);
            }
            at = at + 1;
        }
        proof {
            if as_map(pairs).contains_key(file@) {
                lemma_as_map_key(pairs, file@);
                assert(pairs[key_index(pairs, file@)].0 != file@);
            }
        }
        None
    }

    /// What the file called `file` holds, if there is such a file.
    pub fn read(&self, file: &String) -> (content: Option<String>)
        ensures
            match content {
                Some(text) => self@.contains_key(file@) && self@[file@] == text@,
                None => !self@.contains_key(file@),
            },
    {
        match self.position(file) {
            Some(at) => Some(self.entries[at].content.clone()),
            None => None,
        }
    }

    /// Writes `content` to the file called `file`, which is made if it is
    /// not there and replaced if it is.
    pub fn store(&mut self, file: String, content: String)
        ensures
            final(self)@ == old(self)@.insert(file@, content@),
            final(self).label() == old(self).label(),
    {
        proof {
            use_type_invariant(&*self);
            lemma_no_entries();
        }
        let ghost before = entry_pairs(self.entries@);
        let found = self.position(&file);
        let mut entries: Vec<Entry> = Vec::new();
        std::mem::swap(&mut self.entries, &mut entries);
        match found {
            Some(at) => {
                proof {
                    lemma_as_map_remove(before, at as int);
                    assert(entry_pairs(entries@.remove(at as int)) =~= before.remove(at as int));
                }
                entries.remove(at);
            },
            None => {
                proof {
                    if has_key(before, file@) {
                        assert(as_map(before).contains_key(file@));
                    }
                }
            },
        }
        let ghost between = entry_pairs(entries@);
        let entry = Entry { name: file, content };
        proof {
            lemma_as_map_push(between, entry.name@, entry.content@);
            assert(entry_pairs(entries@.push(entry)) =~= between.push(
                (entry.name@, entry.content@),
            ));
            assert(as_map(between).insert(entry.name@, entry.content@) =~= as_map(before).insert(
                entry.name@,
                entry.content@,
            ));
        }
        entries.push(entry);
        std::mem::swap(&mut self.entries, &mut entries);
    }

    /// The highest version among the files, if they hold a version at all.
    ///
    /// Every file name is read as a number. A name that is none is passed
    /// over, and so is the number zero.
    pub fn latest_version(&self) -> (found: Option<u32>)
        ensures
            match found {
                Some(version) => is_latest(self@, version),
                None => !has_versions(self@),
            },
    {
        proof {
            use_type_invariant(self);
        }
        let ghost pairs = entry_pairs(self.entries@);
        let mut current_version: u32 = 0;
        let mut at: usize = 0;
        while at < self.entries.len()
            invariant
                at <= self.entries.len(),
                pairs == entry_pairs(self.entries@),
                distinct_keys(pairs),
                current_version >= 1 ==> exists|i: int|
                    0 <= i < at && version_of((#[trigger] pairs[i]).0) == Some(current_version),
                forall|i: int|
                    0 <= i < at ==> (version_of((#[trigger] pairs[i]).0) matches Some(version)
                        ==> version <= current_version),
            decreases self.entries.len() - at,
        {
            let ghost earlier = current_version;
            match parse_version(self.entries[at].name.as_str()) {
                Some(version) => {
                    if current_version < version {
                        current_version = version;
                    }
                },
                None => {},
            }
            proof {
                assert(version_of(pairs[at as int].0) matches Some(version) ==> version
                    <= current_version);
                if current_version >= 1 {
                    if current_version == earlier {
                        let i = choose|i: int|
                            0 <= i < at && version_of((#[trigger] pairs[i]).0) == Some(earlier);
                        assert(version_of(pairs[i].0) == Some(current_version));
                    } else {
                        assert(version_of(pairs[at as int].0) == Some(current_version));
                    }
                }
            }
            at = at + 1;
        }
        proof {
            assert forall|other: u32| #[trigger] holds_version(self@, other) implies other
                <= current_version by {
                let name = choose|name: Seq<char>| #[trigger]
                    self@.contains_key(name) && version_of(name) == Some(other);
                lemma_as_map_key(pairs, name);
                assert(version_of(pairs[key_index(pairs, name)].0) == Some(other));
            }
            if current_version >= 1 {
                let i = choose|i: int|
                    0 <= i < at && version_of((#[trigger] pairs[i]).0) == Some(current_version);
                lemma_as_map_at(pairs, i);
                assert(self@.contains_key(pairs[i].0));
                assert(holds_version(self@, current_version));
            }
        }
        if current_version == 0 {
            None
        } else {
            Some(current_version)
        }
    }

    /// The names of the files that are no version files, each once.
    pub fn corrupted(&self) -> (names: Vec<String>)
        ensures
            enumerates(names@, corrupted_names(self@)),
    {
        proof {
            use_type_invariant(self);
        }
        let ghost pairs = entry_pairs(self.entries@);
        let ghost mut origins: Seq<int> = Seq::empty();
        let mut names: Vec<String> = Vec::new();
        let mut at: usize = 0;
        while at < self.entries.len()
            invariant
                at <= self.entries.len(),
                pairs == entry_pairs(self.entries@),
                distinct_keys(pairs),
                origins.len() == names.len(),
                forall|i: int|
                    0 <= i < names.len() ==> 0 <= (#[trigger] origins[i]) < at
                        && pairs[origins[i]].0 == names[i]@ && version_of(names[i]@) is None,
                forall|i: int, j: int|
                    0 <= i < j < names.len() ==> (#[trigger] origins[i]) < (#[trigger] origins[j]),
                forall|k: int|
                    0 <= k < at && version_of((#[trigger] pairs[k]).0) is None ==> exists|i: int|
                        0 <= i < names.len() && (#[trigger] names[i])@ == pairs[k].0,
            decreases self.entries.len() - at,
        {
            let ghost listed = names@;
            let ghost earlier = origins;
            assert(pairs[at as int].0 == self.entries[at as int].name@);
            if parse_version(self.entries[at].name.as_str()).is_none() {
                names.push(self.entries[at].name.clone());
                proof {
                    origins = origins.push(at as int);
                    let added = listed.len() as int;
                    assert(names[added]@ == pairs[at as int].0);
                    assert forall|i: int| 0 <= i < names.len() implies 0 <= (#[trigger] origins[i])
                        < at + 1 && pairs[origins[i]].0 == names[i]@ && version_of(names[i]@)
                        is None by {
                        if i < added {
                            assert(origins[i] == earlier[i]);
                            assert(names[i] == listed[i]);
                        }
                    }
                    assert forall|i: int, j: int| 0 <= i < j < names.len() implies (
                    #[trigger] origins[i]) < (#[trigger] origins[j]) by {
                        assert(origins[i] == earlier[i]);
                        if j < added {
                            assert(origins[j] == earlier[j]);
                        }
                    }
                }
            }
            proof {
                assert forall|k: int|
                    0 <= k < at + 1 && version_of((#[trigger] pairs[k]).0) is None implies exists|
                    i: int,
                | 0 <= i < names.len() && (#[trigger] names[i])@ == pairs[k].0 by {
                    if k < at {
                        let i = choose|i: int|
                            0 <= i < listed.len() && (#[trigger] listed[i])@ == pairs[k].0;
                        assert(names[i] == listed[i]);
                        assert(names[i]@ == pairs[k].0);
                    } else {
                        assert(names[listed.len() as int]@ == pairs[k].0);
                    }
                }
            }
            at = at + 1;
        }
        proof {
            assert forall|i: int| 0 <= i < names.len() implies corrupted_names(self@).contains(
                (#[trigger] names[i])@,
            ) by {
                lemma_as_map_at(pairs, origins[i]);
            }
            assert forall|name: Seq<char>| #[trigger]
                corrupted_names(self@).contains(name) implies exists|i: int|
                0 <= i < names.len() && (#[trigger] names[i])@ == name by {
                lemma_as_map_key(pairs, name);
                let k = key_index(pairs, name);
                assert(version_of(pairs[k].0) is None);
            }
            assert forall|i: int, j: int| 0 <= i < j < names.len() implies (#[trigger] names[i])@
                != (#[trigger] names[j])@ by {
                assert(origins[i] < origins[j]);
                assert(pairs[origins[i]].0 != pairs[origins[j]].0);
            }
        }
        names
    }
}

} // verus!
