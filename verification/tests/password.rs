use pwm::{GetFlags, Password, PasswordVersion};

#[test]
fn password_keeps_name_and_value() {
    let password = Password::new("site".to_string(), "P@ss1word".to_string());
    assert_eq!(password.name(), "site");
    assert_eq!(password.value(), "P@ss1word");
    assert_eq!(password.duplicate(), password);
}

#[test]
fn password_is_shown_as_name_colon_value() {
    let password = Password::new("site".to_string(), "P@ss1word".to_string());
    assert_eq!(password.to_string(), "site: P@ss1word");
    let empty = Password::new(String::new(), String::new());
    assert_eq!(empty.to_string(), ": ");
}

#[test]
fn version_keeps_password_and_number() {
    let password = Password::new("site".to_string(), "P@ss1word".to_string());
    let version = PasswordVersion::new(password.clone(), 3);
    assert_eq!(version.password(), &password);
    assert_eq!(version.version(), 3);
    assert_eq!(version.to_string(), "site: P@ss1word");
}

#[test]
fn register_new_version_counts_up() {
    let password = Password::new("site".to_string(), "P@ss1word".to_string());
    let mut version = PasswordVersion::new(password.clone(), 1);
    version.register_new_version();
    assert_eq!(version, PasswordVersion::new(password.clone(), 2));
    version.register_new_version();
    assert_eq!(version.version(), 3);
    assert_eq!(version.password(), &password);
}

#[test]
fn flags_ask_for_the_latest_version_by_default() {
    assert_eq!(GetFlags::new().version, None);
    assert_eq!(GetFlags::default(), GetFlags::new());
}
