use file_watcher::startup::{classify_root, RootKind, StartupError};

#[test]
fn missing_argument_is_rejected_first() {
    assert_eq!(classify_root(false, true, true, false), Err(StartupError::MissingArg));
    assert_eq!(classify_root(false, false, false, false), Err(StartupError::MissingArg));
}

#[test]
fn missing_root_is_rejected() {
    assert_eq!(classify_root(true, false, false, false), Err(StartupError::RootMissing));
}

#[test]
fn existing_file_is_classified_as_file() {
    assert_eq!(classify_root(true, true, true, false), Ok(RootKind::File));
}

#[test]
fn existing_directory_is_classified_as_dir() {
    assert_eq!(classify_root(true, true, false, true), Ok(RootKind::Dir));
}

#[test]
fn other_existing_path_is_classified_as_other() {
    assert_eq!(classify_root(true, true, false, false), Ok(RootKind::OtherExisting));
}
