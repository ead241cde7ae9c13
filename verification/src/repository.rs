//! The versioned store of passwords.
//!
//! A repository is the image of a directory tree: under its root, one folder
//! for each password, and in the folder one file for each version, named by
//! the version's number and holding the secret. Versions are only ever
//! added; a password is removed with all of them.

use crate::assoc::{
    as_map, distinct_keys, has_key, key_index, lemma_as_map_at, lemma_as_map_empty,
    lemma_as_map_key, lemma_as_map_push, lemma_as_map_remove,
};
use crate::decimal::{decimal, parse_version, render_version, version_of};
use crate::error::Error;
use crate::flags::GetFlags;
use crate::laws::{law_add_then_get, law_remove_then_get, law_update_then_get};
use crate::folder::{
    corrupted_names, has_versions, is_latest, latest, lemma_latest_unique, lemma_no_versions,
    Files, Folder,
};
use crate::text::{enumerates, text_of};
use crate::password::{Password, PasswordView};
use crate::version::{PasswordVersion, PasswordVersionView};
use vstd::prelude::*;

verus! {

/// What a repository holds: where its root is, whether the root exists, and
/// the files of each password's folder.
pub struct RepositoryView {
    pub root: Seq<char>,
    pub initialized: bool,
    pub folders: Map<Seq<char>, Files>,
}

impl RepositoryView {
    /// The files of the password called `name`: none if it has no folder.
    pub open spec fn files(self, name: Seq<char>) -> Files {
        if self.folders.contains_key(name) {
            self.folders[name]
        } else {
            Files::empty()
        }
    }

    /// The password called `name` has at least one version.
    pub open spec fn present(self, name: Seq<char>) -> bool {
        has_versions(self.files(name))
    }

    /// The latest version of the password called `name`, where it is present.
    pub open spec fn latest_version(self, name: Seq<char>) -> u32 {
        latest(self.files(name))
    }

    /// The repository with the folder `name` made, if it was not there.
    pub open spec fn with_folder(self, name: Seq<char>) -> RepositoryView {
        RepositoryView {
            root: self.root,
            initialized: true,
            folders: self.folders.insert(name, self.files(name)),
        }
    }

    /// The repository after `content` was written to the file `file` of the
    /// folder `name`.
    pub open spec fn with_file(
        self,
        name: Seq<char>,
        file: Seq<char>,
        content: Seq<char>,
    ) -> RepositoryView {
        RepositoryView {
            root: self.root,
            initialized: true,
            folders: self.folders.insert(name, self.files(name).insert(file, content)),
        }
    }

    /// The repository after the first version of a password was written.
    pub open spec fn after_add(self, name: Seq<char>, value: Seq<char>) -> RepositoryView {
        self.with_file(name, decimal(1), value)
    }

    /// The repository after one more version of a password was written.
    pub open spec fn after_update(self, name: Seq<char>, value: Seq<char>) -> RepositoryView {
        self.with_file(name, decimal((self.latest_version(name) + 1) as nat), value)
    }

    /// The repository without the password called `name`.
    pub open spec fn after_remove(self, name: Seq<char>) -> RepositoryView {
        RepositoryView {
            root: self.root,
            initialized: self.initialized,
            folders: self.folders.remove(name),
        }
    }

    /// What a lookup of the password called `name` gives: the wanted version,
    /// or the latest one, if its file is there.
    pub open spec fn lookup(
        self,
        name: Seq<char>,
        version: Option<u32>,
    ) -> Result<PasswordVersionView, Error> {
        let wanted = match version {
            Some(number) => number,
            None => self.latest_version(name),
        };
        if version is None && !self.present(name) {
            Err(Error::NotFound)
        } else if wanted >= 1 && self.files(name).contains_key(decimal(wanted as nat)) {
            Ok(
                PasswordVersionView {
                    password: PasswordView {
                        name,
                        value: self.files(name)[decimal(wanted as nat)],
                    },
                    version: wanted as nat,
                },
            )
        } else {
            Err(Error::NotFound)
        }
    }
}

/// The names and the files of a list of folders.
spec fn folder_pairs(folders: Seq<Folder>) -> Seq<(Seq<char>, Files)> {
    folders.map_values(|folder: Folder| (folder.label(), folder@))
}

/// A list of no folders is the empty map, and holds no name twice.
proof fn lemma_no_folders()
    ensures
        folder_pairs(Seq::<Folder>::empty()) == Seq::<(Seq<char>, Files)>::empty(),
        as_map(folder_pairs(Seq::<Folder>::empty())) == Map::<Seq<char>, Files>::empty(),
        distinct_keys(folder_pairs(Seq::<Folder>::empty())),
{
    lemma_as_map_empty::<Files>();
    assert(folder_pairs(Seq::<Folder>::empty()) =~= Seq::<(Seq<char>, Files)>::empty());
}

/// The store of passwords and their versions.
pub struct PasswordRepository {
    root_dir: String,
    initialized: bool,
    folders: Vec<Folder>,
}

impl View for PasswordRepository {
    type V = RepositoryView;

    closed spec fn view(&self) -> RepositoryView {
        RepositoryView {
            root: self.root_dir@,
            initialized: self.initialized,
            folders: as_map(folder_pairs(self.folders@)),
        }
    }
}

impl PasswordRepository {
    #[verifier::type_invariant]
    spec fn well_formed(self) -> bool {
        distinct_keys(folder_pairs(self.folders@))
    }

    /// The image of a root directory that is not there yet, or that nothing
    /// was read from so far.
    pub fn new(root_dir: String) -> (repository: PasswordRepository)
        ensures
            repository@ == (RepositoryView {
                root: root_dir@,
                initialized: false,
                folders: Map::empty(),
            }),
            forall|name: Seq<char>| !#[trigger] repository@.present(name),
    {
        proof {
            lemma_no_folders();
            lemma_no_versions();
        }
        PasswordRepository { root_dir, initialized: false, folders: Vec::new() }
    }

    /// The root directory to use: `passwords_path` where one is given, else
    /// `default_path`, if there is one.
    pub fn resolve_root(
        passwords_path: Option<String>,
        default_path: Option<String>,
    ) -> (root_dir: Option<String>)
        ensures
            text_of(root_dir) == (if passwords_path is Some {
                text_of(passwords_path)
            } else {
                text_of(default_path)
            }),
    {
        match passwords_path {
            Some(path) => Some(path),
            None => default_path,
        }
    }

    /// The path of the root directory.
    pub fn root_dir(&self) -> (path: &str)
        ensures
            path@ == self@.root,
    {
        self.root_dir.as_str()
    }

    /// Whether the root directory exists.
    pub fn is_initialized(&self) -> (initialized: bool)
        ensures
            initialized == self@.initialized,
    {
        self.initialized
    }

    /// Makes the root directory. Nothing changes if it is there already.
    pub fn init(&mut self)
        ensures
            final(self)@ == (RepositoryView {
                root: old(self)@.root,
                initialized: true,
                folders: old(self)@.folders,
            }),
    {
        proof {
            use_type_invariant(&*self);
        }
        self.initialized = true;
    }

    /// Where the folder called `name` stands, if there is one.
    fn find(&self, name: &String) -> (found: Option<usize>)
        ensures
            match found {
                Some(at) => at < self.folders.len() && self.folders[at as int].label() == name@
                    && self@.folders.contains_key(name@) && self@.folders[name@]
                    == self.folders[at as int]@,
                None => !self@.folders.contains_key(name@),
            },
    {
        proof {
            use_type_invariant(self);
        }
        let ghost pairs = folder_pairs(self.folders@);
        let mut at: usize = 0;
        while at < self.folders.len()
            invariant
                at <= self.folders.len(),
                pairs == folder_pairs(self.folders@),
                distinct_keys(pairs),
                forall|i: int| 0 <= i < at ==> (#[trigger] pairs[i]).0 != name@,
            decreases self.folders.len() - at,
        {
            if *self.folders[at].name() == *name {
                proof {
                    lemma_as_map_at(pairs, at as int);
                }
                return Some(at);
            }
            at = at + 1;
        }
        proof {
            if as_map(pairs).contains_key(name@) {
                lemma_as_map_key(pairs, name@);
                assert(pairs[key_index(pairs, name@)].0 != name@);
            }
        }
        None
    }

    /// Makes the folder of the password called `name`, and the root with it.
    /// Nothing changes if the folder is there already.
    pub fn create_folder(&mut self, name: &str)
        ensures
            final(self)@ == old(self)@.with_folder(name@),
    {
        proof {
            use_type_invariant(&*self);
        }
        let name: String = name.to_owned();
        let ghost before = folder_pairs(self.folders@);
        match self.find(&name) {
            Some(_) => {
                assert(self@.folders.insert(name@, self@.files(name@)) =~= self@.folders);
            },
            None => {
                let folder = Folder::new(name);
                let mut folders: Vec<Folder> = Vec::new();
                proof {
                    lemma_no_folders();
                    if has_key(before, folder.label()) {
                        assert(as_map(before).contains_key(folder.label()));
                    }
                    lemma_as_map_push(before, folder.label(), folder@);
                    assert(folder_pairs(self.folders@.push(folder)) =~= before.push(
                        (folder.label(), folder@),
                    ));
                }
                std::mem::swap(&mut self.folders, &mut folders);
                folders.push(folder);
                std::mem::swap(&mut self.folders, &mut folders);
            },
        }
        self.initialized = true;
    }

    /// Writes `content` to the file `file` in the folder of the password
    /// called `name`. The folder and the file are made if they are not
    /// there; a file that is there is replaced.
    pub fn store_file(&mut self, name: &str, file: &str, content: &str)
        ensures
            final(self)@ == old(self)@.with_file(name@, file@, content@),
    {
        proof {
            use_type_invariant(&*self);
            lemma_no_folders();
        }
        let name: String = name.to_owned();
        let ghost before = folder_pairs(self.folders@);
        let found = self.find(&name);
        let mut folders: Vec<Folder> = Vec::new();
        std::mem::swap(&mut self.folders, &mut folders);
        let mut folder = match found {
            Some(at) => {
                proof {
                    lemma_as_map_remove(before, at as int);
                    assert(folder_pairs(folders@.remove(at as int)) =~= before.remove(at as int));
                }
                folders.remove(at)
            },
            None => {
                proof {
                    if has_key(before, name@) {
                        assert(as_map(before).contains_key(name@));
                    }
                }
                Folder::new(name)
            },
        };
        let ghost between = folder_pairs(folders@);
        folder.store(file.to_owned(), content.to_owned());
        proof {
            lemma_as_map_push(between, folder.label(), folder@);
            assert(folder_pairs(folders@.push(folder)) =~= between.push((folder.label(), folder@)));
            assert(as_map(between).insert(folder.label(), folder@) =~= as_map(before).insert(
                folder.label(),
                folder@,
            ));
        }
        folders.push(folder);
        std::mem::swap(&mut self.folders, &mut folders);
        self.initialized = true;
    }

    /// Takes a file that was found on disk into the folder of the password
    /// called `name`: its name, and its content where it could be read.
    ///
    /// A file that could not be read is taken in as empty when its name is
    /// no number, since such a file is passed over anyway. An unreadable
    /// version file is refused with `IoFailure`, and nothing changes.
    pub fn load_file(
        &mut self,
        name: &str,
        file: &str,
        content: Option<String>,
    ) -> (loaded: Result<(), Error>)
        ensures
            match content {
                Some(text) => loaded is Ok && final(self)@ == old(self)@.with_file(
                    name@,
                    file@,
                    text@,
                ),
                None => if version_of(file@) is None {
                    loaded is Ok && final(self)@ == old(self)@.with_file(
                        name@,
                        file@,
                        Seq::empty(),
                    )
                } else {
                    loaded == Err::<(), Error>(Error::IoFailure) && final(self)@ == old(self)@
                },
            },
    {
        match content {
            Some(text) => {
                self.store_file(name, file, text.as_str());
                Ok(())
            },
            None => {
                if parse_version(file).is_some() {
                    return Err(Error::IoFailure);
                }
                let nothing: String = String::new();
                self.store_file(name, file, nothing.as_str());
                Ok(())
            },
        }
    }

    /// Writes a version of a password to its file: the file is named by the
    /// version's number and holds the secret.
    pub fn write_password_version(&mut self, password_version: &PasswordVersion)
        ensures
            final(self)@ == old(self)@.with_file(
                password_version@.password.name,
                decimal(password_version@.version),
                password_version@.password.value,
            ),
    {
        let file: String = render_version(password_version.version());
        self.store_file(
            password_version.password().name(),
            file.as_str(),
            password_version.password().value(),
        );
    }

    /// Stores a new password as its first version.
    ///
    /// A password that has a version already is left as it is, and the call
    /// fails with `Conflict`.
    pub fn add(&mut self, password: &Password) -> (added: Result<PasswordVersion, Error>)
        ensures
            match added {
                Ok(version) => {
                    &&& !old(self)@.present(password@.name)
                    &&& version@ == (PasswordVersionView { password: password@, version: 1 })
                    &&& final(self)@ == old(self)@.after_add(password@.name, password@.value)
                    &&& final(self)@.present(password@.name)
                    &&& final(self)@.latest_version(password@.name) == 1
                    &&& final(self)@.lookup(password@.name, None) == Ok::<
                        PasswordVersionView,
                        Error,
                    >(version@)
                },
                Err(error) => {
                    &&& error == Error::Conflict
                    &&& old(self)@.present(password@.name)
                    &&& final(self)@ == old(self)@
                },
            },
    {
        if self.get_latest_version(password.name()).is_ok() {
            return Err(Error::Conflict);
        }
        let version = PasswordVersion::new(password.duplicate(), 1);
        proof {
            law_add_then_get(self@, password@.name, password@.value);
        }
        self.write_password_version(&version);
        Ok(version)
    }

    /// The wanted version of the password called `password_name`, or its
    /// latest version when `options` names none.
    pub fn get(
        &self,
        password_name: &str,
        options: GetFlags,
    ) -> (found: Result<PasswordVersion, Error>)
        ensures
            match found {
                Ok(version) => self@.lookup(password_name@, options.version) == Ok::<
                    PasswordVersionView,
                    Error,
                >(version@),
                Err(error) => self@.lookup(password_name@, options.version) == Err::<
                    PasswordVersionView,
                    Error,
                >(error),
            },
    {
        let name: String = password_name.to_owned();
        let version: u32 = match options.version {
            None => match self.get_latest_version(password_name) {
                Ok(version) => {
                    proof {
                        lemma_latest_unique(self@.files(password_name@), version);
                    }
                    version
                },
                Err(error) => {
                    return Err(error);
                },
            },
            Some(version) => version,
        };
        if version == 0 {
            return Err(Error::NotFound);
        }
        let file: String = render_version(version);
        match self.find(&name) {
            Some(at) => match self.folders[at].read(&file) {
                Some(password_value) => {
                    let password = Password::new(name, password_value);
                    Ok(PasswordVersion::new(password, version))
                },
                None => Err(Error::NotFound),
            },
            None => Err(Error::NotFound),
        }
    }

    /// The number of the latest version of the password called
    /// `password_name`: the highest number among the names of its files.
    /// Files whose names are no numbers are passed over.
    pub fn get_latest_version(&self, password_name: &str) -> (found: Result<u32, Error>)
        ensures
            match found {
                Ok(version) => is_latest(self@.files(password_name@), version),
                Err(error) => error == Error::NotFound && !self@.present(password_name@),
            },
    {
        let name: String = password_name.to_owned();
        match self.find(&name) {
            Some(at) => match self.folders[at].latest_version() {
                Some(version) => Ok(version),
                None => Err(Error::NotFound),
            },
            None => {
                proof {
                    lemma_no_versions();
                }
                Err(Error::NotFound)
            },
        }
    }

    /// Stores one more version of a password that is there already.
    ///
    /// The new version gets the number after the latest one; the earlier
    /// versions stay as they are. A password without a version is not made:
    /// the call fails with `NotFound`.
    pub fn update(&mut self, password: &Password) -> (updated: Result<PasswordVersion, Error>)
        ensures
            match updated {
                Ok(version) => {
                    &&& old(self)@.present(password@.name)
                    &&& old(self)@.latest_version(password@.name) < u32::MAX
                    &&& version@ == (PasswordVersionView {
                        password: password@,
                        version: (old(self)@.latest_version(password@.name) + 1) as nat,
                    })
                    &&& final(self)@ == old(self)@.after_update(password@.name, password@.value)
                    &&& final(self)@.present(password@.name)
                    &&& final(self)@.latest_version(password@.name) == version@.version
                    &&& final(self)@.lookup(password@.name, None) == Ok::<
                        PasswordVersionView,
                        Error,
                    >(version@)
                    &&& forall|earlier: u32|
                        earlier != version@.version ==> #[trigger] final(self)@.lookup(
                            password@.name,
                            Some(earlier),
                        ) == old(self)@.lookup(password@.name, Some(earlier))
                },
                Err(Error::NotFound) => {
                    &&& !old(self)@.present(password@.name)
                    &&& final(self)@ == old(self)@
                },
                Err(Error::Internal) => {
                    &&& old(self)@.present(password@.name)
                    &&& old(self)@.latest_version(password@.name) == u32::MAX
                    &&& final(self)@ == old(self)@
                },
                Err(_) => false,
            },
    {
        let version: u32 = match self.get_latest_version(password.name()) {
            Ok(version) => {
                proof {
                    lemma_latest_unique(self@.files(password@.name), version);
                }
                if version == u32::MAX {
                    return Err(Error::Internal);
                }
                version + 1
            },
            Err(_) => {
                return Err(Error::NotFound);
            },
        };
        let password_version = PasswordVersion::new(password.duplicate(), version);
        proof {
            law_update_then_get(self@, password@.name, password@.value);
        }
        self.write_password_version(&password_version);
        Ok(password_version)
    }

    /// The names of all passwords that have a folder, each once, in no
    /// particular order. Fails with `IoFailure` when the root is not there.
    pub fn list(&self) -> (listed: Result<Vec<String>, Error>)
        ensures
            listed is Ok <==> self@.initialized,
            listed matches Err(error) ==> error == Error::IoFailure,
            listed matches Ok(names) ==> enumerates(names@, self@.folders.dom()),
    {
        if !self.initialized {
            return Err(Error::IoFailure);
        }
        Ok(self.folder_names())
    }

    /// The names of the folders, each once.
    fn folder_names(&self) -> (names: Vec<String>)
        ensures
            enumerates(names@, self@.folders.dom()),
    {
        proof {
            use_type_invariant(self);
        }
        let ghost pairs = folder_pairs(self.folders@);
        let mut names: Vec<String> = Vec::new();
        let mut at: usize = 0;
        while at < self.folders.len()
            invariant
                at <= self.folders.len(),
                pairs == folder_pairs(self.folders@),
                distinct_keys(pairs),
                names.len() == at,
                forall|i: int| 0 <= i < at ==> (#[trigger] names[i])@ == pairs[i].0,
            decreases self.folders.len() - at,
        {
            names.push(self.folders[at].name().clone());
            at = at + 1;
        }
        proof {
            assert forall|i: int| 0 <= i < names.len() implies self@.folders.contains_key(
                (#[trigger] names[i])@,
            ) by {
                lemma_as_map_at(pairs, i);
            }
            assert forall|name: Seq<char>| #[trigger]
                self@.folders.dom().contains(name) implies exists|i: int|
                0 <= i < names.len() && (#[trigger] names[i])@ == name by {
                lemma_as_map_key(pairs, name);
                assert(names[key_index(pairs, name)]@ == name);
            }
            assert forall|i: int, j: int| 0 <= i < j < names.len() implies (#[trigger] names[i])@
                != (#[trigger] names[j])@ by {
                assert(pairs[i].0 != pairs[j].0);
            }
        }
        names
    }

    /// Removes the password called `password_name` with all its versions.
    /// Nothing changes if there is no such password.
    pub fn remove(&mut self, password_name: &str)
        ensures
            final(self)@ == old(self)@.after_remove(password_name@),
            !old(self)@.folders.contains_key(password_name@) ==> final(self)@ == old(self)@,
            !final(self)@.present(password_name@),
            forall|version: Option<u32>| #[trigger]
                final(self)@.lookup(password_name@, version) == Err::<PasswordVersionView, Error>(
                    Error::NotFound,
                ),
    {
        proof {
            use_type_invariant(&*self);
            assert forall|version: Option<u32>| #[trigger]
                self@.after_remove(password_name@).lookup(password_name@, version) == Err::<
                    PasswordVersionView,
                    Error,
                >(Error::NotFound) by {
                law_remove_then_get(self@, password_name@, version);
            }
            law_remove_then_get(self@, password_name@, None);
            lemma_no_folders();
        }
        let name: String = password_name.to_owned();
        let ghost before = folder_pairs(self.folders@);
        match self.find(&name) {
            Some(at) => {
                let mut folders: Vec<Folder> = Vec::new();
                std::mem::swap(&mut self.folders, &mut folders);
                proof {
                    lemma_as_map_remove(before, at as int);
                    assert(folder_pairs(folders@.remove(at as int)) =~= before.remove(at as int));
                }
                folders.remove(at);
                std::mem::swap(&mut self.folders, &mut folders);
            },
            None => {
                assert(self@.folders.remove(name@) =~= self@.folders);
            },
        }
    }

    /// Removes the password called `password_name`, as `remove` does.
    pub fn delete(&mut self, password_name: &str)
        ensures
            final(self)@ == old(self)@.after_remove(password_name@),
            !old(self)@.folders.contains_key(password_name@) ==> final(self)@ == old(self)@,
            !final(self)@.present(password_name@),
            forall|version: Option<u32>| #[trigger]
                final(self)@.lookup(password_name@, version) == Err::<PasswordVersionView, Error>(
                    Error::NotFound,
                ),
    {
        self.remove(password_name);
    }

    /// The names of the files in the folder of the password called
    /// `password_name` that are no version files, each once. A lookup passes
    /// them over; they are listed so that the caller can warn of them.
    pub fn corrupted(&self, password_name: &str) -> (names: Vec<String>)
        ensures
            enumerates(names@, corrupted_names(self@.files(password_name@))),
    {
        let name: String = password_name.to_owned();
        match self.find(&name) {
            Some(at) => self.folders[at].corrupted(),
            None => Vec::new(),
        }
    }
}

} // verus!
