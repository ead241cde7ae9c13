use pwm::folder::Folder;

fn text(value: &str) -> String {
    value.to_string()
}

#[test]
fn a_new_folder_is_empty() {
    let folder = Folder::new(text("site"));
    assert_eq!(folder.name(), "site");
    assert_eq!(folder.read(&text("1")), None);
    assert_eq!(folder.latest_version(), None);
    assert_eq!(folder.corrupted(), Vec::<String>::new());
}

#[test]
fn a_file_is_read_as_it_was_stored() {
    let mut folder = Folder::new(text("site"));
    folder.store(text("1"), text("first"));
    folder.store(text("2"), text("second\n"));
    folder.store(text("notes"), text(""));
    assert_eq!(folder.read(&text("1")), Some(text("first")));
    assert_eq!(folder.read(&text("2")), Some(text("second\n")));
    assert_eq!(folder.read(&text("notes")), Some(text("")));
    assert_eq!(folder.read(&text("3")), None);
    assert_eq!(folder.read(&text("01")), None);
    folder.store(text("1"), text("changed"));
    assert_eq!(folder.read(&text("1")), Some(text("changed")));
    assert_eq!(folder.read(&text("2")), Some(text("second\n")));
    assert_eq!(folder.name(), "site");
}

#[test]
fn the_latest_version_is_the_highest_number_among_the_names() {
    let mut folder = Folder::new(text("site"));
    folder.store(text("0"), text("zero"));
    assert_eq!(folder.latest_version(), None);
    folder.store(text("2"), text("two"));
    assert_eq!(folder.latest_version(), Some(2));
    folder.store(text("1"), text("one"));
    assert_eq!(folder.latest_version(), Some(2));
    folder.store(text("+12"), text("twelve"));
    assert_eq!(folder.latest_version(), Some(12));
    folder.store(text("4294967296"), text("too high"));
    folder.store(text("13a"), text("no number"));
    assert_eq!(folder.latest_version(), Some(12));
    folder.store(text("4294967295"), text("highest"));
    assert_eq!(folder.latest_version(), Some(4294967295));
}

#[test]
fn files_whose_names_are_no_numbers_are_corrupted() {
    let mut folder = Folder::new(text("site"));
    folder.store(text("1"), text("one"));
    folder.store(text("notes"), text("a"));
    folder.store(text("0"), text("zero"));
    folder.store(text("4294967296"), text("too high"));
    folder.store(text(""), text("no name"));
    folder.store(text("notes"), text("b"));
    let mut corrupted = folder.corrupted();
    corrupted.sort();
    assert_eq!(corrupted, vec![text(""), text("4294967296"), text("notes")]);
}
