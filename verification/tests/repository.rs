use pwm::{Error, GetFlags, Password, PasswordRepository, PasswordVersion};

const PASSWORD_NAME: &str = "test-password";
const PASSWORD_VALUE: &str = "TEST";
const NEW_PASSWORD_VALUE: &str = "NEW-TEST";

fn repository() -> PasswordRepository {
    PasswordRepository::new("/home/user/.password".to_string())
}

fn password(name: &str, value: &str) -> Password {
    Password::new(name.to_string(), value.to_string())
}

fn version(number: u32) -> GetFlags {
    let mut flags = GetFlags::new();
    flags.version = Some(number);
    flags
}

fn sorted(mut names: Vec<String>) -> Vec<String> {
    names.sort();
    names
}

#[test]
fn save_and_update_new_password() {
    let mut password_repo = repository();

    let password = Password::new(PASSWORD_NAME.to_string(), PASSWORD_VALUE.to_string());
    let password_version = PasswordVersion::new(password.clone(), 1);
    let mut first_options = GetFlags::new();
    first_options.version = Some(1);

    password_repo.remove(&password.name());

    let new_password = Password::new(PASSWORD_NAME.to_string(), NEW_PASSWORD_VALUE.to_string());
    let new_password_version = PasswordVersion::new(new_password.clone(), 2);
    let mut new_options = GetFlags::new();
    new_options.version = Some(2);

    password_repo.add(&password).unwrap();
    password_repo.update(&new_password).unwrap();

    assert_eq!(
        password_version,
        password_repo
            .get(&new_password.name(), first_options)
            .expect("Couldn't get value")
    );
    assert_eq!(
        new_password_version,
        password_repo
            .get(&new_password.name(), new_options)
            .expect("Couldn't get value")
    );

    password_repo.remove(new_password.name());
}

#[test]
fn repository_save_and_update_new_password() {
    let password = Password::new("test-password".to_string(), "TEST".to_string());
    let mut password_repo = repository();

    password_repo.delete(&password.name());
    password_repo.add(&password).unwrap();

    assert_eq!(
        &password,
        password_repo
            .get(password.name(), GetFlags::new())
            .expect("Couldn't get value")
            .password()
    );

    let new_password = Password::new(password.name().to_string(), "NEW-TEST".to_string());
    password_repo.update(&new_password).unwrap();

    assert_eq!(
        &new_password,
        password_repo
            .get(&new_password.name(), GetFlags::new())
            .expect("Couldn't get value")
            .password()
    );

    password_repo.delete(new_password.name());
    assert_eq!(
        password_repo.get(new_password.name(), GetFlags::new()),
        Err(Error::NotFound)
    );
}

#[test]
fn new_repository_is_empty_and_not_initialized() {
    let mut repo = repository();
    assert_eq!(repo.root_dir(), "/home/user/.password");
    assert!(!repo.is_initialized());
    assert_eq!(repo.list(), Err(Error::IoFailure));
    assert_eq!(repo.get("a", GetFlags::new()), Err(Error::NotFound));
    repo.init();
    assert!(repo.is_initialized());
    assert_eq!(repo.list(), Ok(vec![]));
    repo.init();
    assert_eq!(repo.list(), Ok(vec![]));
}

#[test]
fn add_then_get_round_trip() {
    let mut repo = repository();
    let added = repo.add(&password("a", "secret")).unwrap();
    assert_eq!(added, PasswordVersion::new(password("a", "secret"), 1));
    let found = repo.get("a", GetFlags::new()).unwrap();
    assert_eq!(found.password().name(), "a");
    assert_eq!(found.password().value(), "secret");
    assert_eq!(found.version(), 1);
    assert_eq!(repo.get("a", version(1)), Ok(found));
    assert_eq!(repo.get_latest_version("a"), Ok(1));
    assert!(repo.is_initialized());
}

#[test]
fn update_appends_a_version() {
    let mut repo = repository();
    repo.add(&password("a", "v1")).unwrap();
    let updated = repo.update(&password("a", "v2")).unwrap();
    assert_eq!(updated, PasswordVersion::new(password("a", "v2"), 2));
    assert_eq!(
        repo.get("a", GetFlags::new()),
        Ok(PasswordVersion::new(password("a", "v2"), 2))
    );
    assert_eq!(
        repo.get("a", version(1)),
        Ok(PasswordVersion::new(password("a", "v1"), 1))
    );
    assert_eq!(
        repo.get("a", version(2)),
        Ok(PasswordVersion::new(password("a", "v2"), 2))
    );
    assert_eq!(repo.get("a", version(3)), Err(Error::NotFound));
    assert_eq!(repo.get("a", version(0)), Err(Error::NotFound));
}

#[test]
fn many_updates_keep_every_version() {
    let mut repo = repository();
    repo.add(&password("a", "value 1")).unwrap();
    for number in 2..=25u32 {
        let updated = repo.update(&password("a", &format!("value {}", number))).unwrap();
        assert_eq!(updated.version(), number);
    }
    assert_eq!(repo.get_latest_version("a"), Ok(25));
    for number in 1..=25u32 {
        let found = repo.get("a", version(number)).unwrap();
        assert_eq!(found.version(), number);
        assert_eq!(found.password().value(), format!("value {}", number));
    }
    assert_eq!(repo.list(), Ok(vec!["a".to_string()]));
}

#[test]
fn add_of_an_existing_password_is_a_conflict() {
    let mut repo = repository();
    repo.add(&password("a", "first")).unwrap();
    repo.update(&password("a", "second")).unwrap();
    assert_eq!(repo.add(&password("a", "x")), Err(Error::Conflict));
    assert_eq!(repo.get_latest_version("a"), Ok(2));
    assert_eq!(repo.get("a", version(1)).unwrap().password().value(), "first");
    assert_eq!(repo.get("a", version(2)).unwrap().password().value(), "second");
    assert_eq!(repo.get("a", GetFlags::new()).unwrap().password().value(), "second");
    assert_eq!(repo.list(), Ok(vec!["a".to_string()]));
}

#[test]
fn update_of_a_missing_password_is_not_found() {
    let mut repo = repository();
    assert_eq!(repo.update(&password("a", "x")), Err(Error::NotFound));
    assert!(!repo.is_initialized());
    assert_eq!(repo.get("a", GetFlags::new()), Err(Error::NotFound));
    repo.add(&password("b", "y")).unwrap();
    assert_eq!(repo.update(&password("a", "x")), Err(Error::NotFound));
    assert_eq!(repo.list(), Ok(vec!["b".to_string()]));
}

#[test]
fn remove_deletes_every_version() {
    let mut repo = repository();
    repo.add(&password("a", "v1")).unwrap();
    repo.update(&password("a", "v2")).unwrap();
    repo.add(&password("b", "other")).unwrap();
    repo.remove("a");
    assert_eq!(repo.get("a", GetFlags::new()), Err(Error::NotFound));
    assert_eq!(repo.get("a", version(1)), Err(Error::NotFound));
    assert_eq!(repo.get("a", version(2)), Err(Error::NotFound));
    assert_eq!(repo.get_latest_version("a"), Err(Error::NotFound));
    assert_eq!(repo.list(), Ok(vec!["b".to_string()]));
    assert_eq!(repo.get("b", GetFlags::new()).unwrap().password().value(), "other");
    let again = repo.add(&password("a", "fresh")).unwrap();
    assert_eq!(again.version(), 1);
    assert_eq!(repo.get("a", GetFlags::new()).unwrap().password().value(), "fresh");
}

#[test]
fn remove_of_a_missing_password_changes_nothing() {
    let mut repo = repository();
    repo.remove("never");
    assert!(!repo.is_initialized());
    repo.add(&password("a", "v1")).unwrap();
    repo.remove("never");
    repo.delete("never");
    assert_eq!(repo.list(), Ok(vec!["a".to_string()]));
    assert_eq!(
        repo.get("a", GetFlags::new()),
        Ok(PasswordVersion::new(password("a", "v1"), 1))
    );
}

#[test]
fn files_that_are_no_versions_are_passed_over() {
    let mut repo = repository();
    repo.store_file("a", "1", "v1");
    repo.store_file("a", "notes.txt", "not a version");
    repo.store_file("a", "2", "v2");
    repo.store_file("a", ".2.swp", "not a version either");
    assert_eq!(repo.get_latest_version("a"), Ok(2));
    assert_eq!(
        repo.get("a", GetFlags::new()),
        Ok(PasswordVersion::new(password("a", "v2"), 2))
    );
    assert_eq!(
        repo.get("a", version(1)),
        Ok(PasswordVersion::new(password("a", "v1"), 1))
    );
    assert_eq!(
        sorted(repo.corrupted("a")),
        vec![".2.swp".to_string(), "notes.txt".to_string()]
    );
    let updated = repo.update(&password("a", "v3")).unwrap();
    assert_eq!(updated.version(), 3);
    assert_eq!(repo.get("a", GetFlags::new()), Ok(updated));
    assert_eq!(repo.add(&password("a", "x")), Err(Error::Conflict));
    assert_eq!(
        sorted(repo.corrupted("a")),
        vec![".2.swp".to_string(), "notes.txt".to_string()]
    );
}

#[test]
fn a_folder_without_version_files_holds_no_password() {
    let mut repo = repository();
    repo.store_file("a", "notes.txt", "not a version");
    repo.store_file("a", "0", "not a version: numbers start at one");
    repo.create_folder("b");
    assert_eq!(repo.get_latest_version("a"), Err(Error::NotFound));
    assert_eq!(repo.get("a", GetFlags::new()), Err(Error::NotFound));
    assert_eq!(repo.get("a", version(0)), Err(Error::NotFound));
    assert_eq!(repo.update(&password("a", "x")), Err(Error::NotFound));
    assert_eq!(repo.get("b", GetFlags::new()), Err(Error::NotFound));
    assert_eq!(repo.corrupted("a"), vec!["notes.txt".to_string()]);
    assert_eq!(repo.corrupted("b"), Vec::<String>::new());
    assert_eq!(repo.corrupted("c"), Vec::<String>::new());
    assert_eq!(sorted(repo.list().unwrap()), vec!["a".to_string(), "b".to_string()]);
    let added = repo.add(&password("a", "first")).unwrap();
    assert_eq!(added.version(), 1);
    assert_eq!(repo.get("a", GetFlags::new()), Ok(added));
    assert_eq!(repo.corrupted("a"), vec!["notes.txt".to_string()]);
}

#[test]
fn the_latest_version_is_the_highest_number() {
    let mut repo = repository();
    repo.store_file("a", "3", "three");
    repo.store_file("a", "10", "ten");
    repo.store_file("a", "9", "nine");
    assert_eq!(repo.get_latest_version("a"), Ok(10));
    assert_eq!(repo.get("a", GetFlags::new()).unwrap().password().value(), "ten");
    assert_eq!(repo.get("a", version(2)), Err(Error::NotFound));
    let updated = repo.update(&password("a", "eleven")).unwrap();
    assert_eq!(updated.version(), 11);
}

#[test]
fn a_version_is_read_from_the_file_named_by_its_digits() {
    let mut repo = repository();
    repo.store_file("a", "007", "seven");
    assert_eq!(repo.get_latest_version("a"), Ok(7));
    assert_eq!(repo.get("a", GetFlags::new()), Err(Error::NotFound));
    assert_eq!(repo.get("a", version(7)), Err(Error::NotFound));
    assert_eq!(repo.add(&password("a", "x")), Err(Error::Conflict));
    let updated = repo.update(&password("a", "eight")).unwrap();
    assert_eq!(updated.version(), 8);
    assert_eq!(repo.get("a", GetFlags::new()), Ok(updated));
}

#[test]
fn store_file_replaces_a_file_of_the_same_name() {
    let mut repo = repository();
    repo.store_file("a", "1", "old");
    repo.store_file("a", "1", "new");
    assert_eq!(repo.get("a", GetFlags::new()).unwrap().password().value(), "new");
    assert_eq!(repo.get_latest_version("a"), Ok(1));
    assert_eq!(repo.list(), Ok(vec!["a".to_string()]));
}

#[test]
fn write_password_version_names_the_file_by_the_number() {
    let mut repo = repository();
    repo.write_password_version(&PasswordVersion::new(password("a", "five"), 5));
    assert_eq!(repo.get_latest_version("a"), Ok(5));
    assert_eq!(
        repo.get("a", version(5)),
        Ok(PasswordVersion::new(password("a", "five"), 5))
    );
    assert_eq!(repo.corrupted("a"), Vec::<String>::new());
}

#[test]
fn versions_run_out_at_the_highest_number() {
    let mut repo = repository();
    repo.store_file("a", "4294967294", "last but one");
    let updated = repo.update(&password("a", "last")).unwrap();
    assert_eq!(updated.version(), 4294967295);
    assert_eq!(repo.update(&password("a", "one too many")), Err(Error::Internal));
    assert_eq!(repo.get_latest_version("a"), Ok(4294967295));
    assert_eq!(repo.get("a", GetFlags::new()).unwrap().password().value(), "last");
}

#[test]
fn list_names_every_folder_once() {
    let mut repo = repository();
    repo.add(&password("b", "1")).unwrap();
    repo.add(&password("a", "2")).unwrap();
    repo.update(&password("b", "3")).unwrap();
    repo.create_folder("c");
    repo.create_folder("a");
    assert_eq!(
        sorted(repo.list().unwrap()),
        vec!["a".to_string(), "b".to_string(), "c".to_string()]
    );
    repo.remove("b");
    assert_eq!(
        sorted(repo.list().unwrap()),
        vec!["a".to_string(), "c".to_string()]
    );
}

#[test]
fn passwords_do_not_touch_each_other() {
    let mut repo = repository();
    repo.add(&password("a", "a1")).unwrap();
    repo.add(&password("b", "b1")).unwrap();
    repo.update(&password("a", "a2")).unwrap();
    assert_eq!(repo.get_latest_version("a"), Ok(2));
    assert_eq!(repo.get_latest_version("b"), Ok(1));
    assert_eq!(repo.get("b", GetFlags::new()).unwrap().password().value(), "b1");
    repo.remove("a");
    assert_eq!(repo.get("b", GetFlags::new()).unwrap().password().value(), "b1");
}

#[test]
fn site_scenario() {
    let mut repo = repository();
    repo.add(&password("site", "P@ss1word")).unwrap();
    assert!(repo.list().unwrap().contains(&"site".to_string()));
    repo.update(&password("site", "NewP@ss2")).unwrap();
    assert_eq!(
        repo.get("site", GetFlags::new()),
        Ok(PasswordVersion::new(password("site", "NewP@ss2"), 2))
    );
    assert_eq!(
        repo.get("site", version(1)),
        Ok(PasswordVersion::new(password("site", "P@ss1word"), 1))
    );
    repo.remove("site");
    assert_eq!(repo.get("site", GetFlags::new()), Err(Error::NotFound));
}

#[test]
fn files_found_on_disk_are_taken_in() {
    let mut repo = repository();
    assert_eq!(repo.load_file("a", "1", Some("v1".to_string())), Ok(()));
    assert_eq!(repo.load_file("a", "notes.txt", None), Ok(()));
    assert_eq!(repo.load_file("a", "2", Some("v2".to_string())), Ok(()));
    assert!(repo.is_initialized());
    assert_eq!(repo.get_latest_version("a"), Ok(2));
    assert_eq!(repo.get("a", version(1)).unwrap().password().value(), "v1");
    assert_eq!(repo.corrupted("a"), vec!["notes.txt".to_string()]);
}

#[test]
fn an_unreadable_version_file_is_refused() {
    let mut repo = repository();
    assert_eq!(repo.load_file("a", "3", None), Err(Error::IoFailure));
    assert!(!repo.is_initialized());
    assert_eq!(repo.list(), Err(Error::IoFailure));
    assert_eq!(repo.load_file("a", "1", Some("v1".to_string())), Ok(()));
    assert_eq!(repo.load_file("a", "+2", None), Err(Error::IoFailure));
    assert_eq!(repo.load_file("a", "0", None), Err(Error::IoFailure));
    assert_eq!(repo.get_latest_version("a"), Ok(1));
    assert_eq!(repo.load_file("a", "4294967296", None), Ok(()));
    assert_eq!(repo.corrupted("a"), vec!["4294967296".to_string()]);
    assert_eq!(repo.get_latest_version("a"), Ok(1));
}
