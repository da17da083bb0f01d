use std::io::Write;

use bootstrapper::launch::{ArchiveError, JavaError, JavaLauncher, LauncherBinary};

fn zip_with_one_entry() -> Vec<u8> {
    let cursor = std::io::Cursor::new(Vec::new());
    let mut writer = zip::ZipWriter::new(cursor);
    writer.start_file("app.txt", zip::write::SimpleFileOptions::default()).unwrap();
    writer.write_all(b"contents").unwrap();
    writer.finish().unwrap().into_inner()
}

fn zip_with_no_entries() -> Vec<u8> {
    let cursor = std::io::Cursor::new(Vec::new());
    let writer = zip::ZipWriter::new(cursor);
    writer.finish().unwrap().into_inner()
}

#[test]
fn test_jar_accepts_archive_with_entry() {
    let bin = LauncherBinary::new(String::from("a.jar"));
    assert_eq!(bin.test_jar(&zip_with_one_entry()).unwrap(), true);
}

#[test]
fn test_jar_rejects_empty_archive() {
    let bin = LauncherBinary::new(String::from("a.jar"));
    assert_eq!(bin.test_jar(&zip_with_no_entries()).unwrap(), false);
}

#[test]
fn test_jar_fails_on_garbage() {
    let bin = LauncherBinary::new(String::from("a.jar"));
    assert!(bin.test_jar(&b"this is not an archive at all".to_vec()).is_err());
}

#[test]
fn test_jar_fails_on_zero_byte_file() {
    let bin = LauncherBinary::new(String::from("a.jar"));
    assert!(matches!(bin.test_jar(&Vec::new()), Err(ArchiveError::Malformed)));
}

#[test]
fn handle_path_and_equality() {
    let a = LauncherBinary::new(String::from("/dir/a.jar"));
    let b = LauncherBinary::new(String::from("/dir/a.jar"));
    let c = LauncherBinary::new(String::from("/dir/c.jar"));
    assert_eq!(a.path().as_str(), "/dir/a.jar");
    assert!(a == b);
    assert!(a != c);
}

#[test]
fn create_launcher_builds_command_line() {
    let bin = LauncherBinary::new(String::from("/dir/app.jar"));
    let launcher = bin.create_launcher(vec![String::from("--flag"), String::from("value")]);
    let argv = launcher.command_line();
    assert_eq!(argv, vec!["-jar", "/dir/app.jar", "--flag", "value"]);
}

#[test]
fn interpret_status_distinguishes_outcomes() {
    assert!(JavaLauncher::interpret_status(Some(0)).is_ok());
    assert_eq!(JavaLauncher::interpret_status(Some(3)).unwrap_err(), JavaError::ExitCode(3));
    assert_eq!(JavaLauncher::interpret_status(Some(-9)).unwrap_err(), JavaError::ExitCode(-9));
    assert_eq!(JavaLauncher::interpret_status(None).unwrap_err(), JavaError::Signal);
}
