use appmon::error::AppError;
use appmon::validation::{
    coordinate, file_check, key_input, non_empty, package_or_bundle_id, point, readable_file,
    swipe_points, text_input,
};

fn invalid(r: Result<(), AppError>) -> String {
    match r {
        Err(AppError::InvalidInput(m)) => m,
        other => panic!("expected invalid input, got {other:?}"),
    }
}

#[test]
fn non_empty_rejects_blank_values() {
    assert!(non_empty("x", "field").is_ok());
    assert_eq!(invalid(non_empty(" \t\n", "field")), "field cannot be empty");
    assert_eq!(invalid(non_empty("", "name")), "name cannot be empty");
}

#[test]
fn package_ids_accept_letters_digits_and_separators() {
    assert!(package_or_bundle_id("com.example.app_1-2").is_ok());
    assert_eq!(
        invalid(package_or_bundle_id("com.example/app")),
        "package_or_bundle_id contains unsupported characters"
    );
    assert_eq!(invalid(package_or_bundle_id("  ")), "package_or_bundle_id cannot be empty");
    assert_eq!(
        invalid(package_or_bundle_id(" com.example")),
        "package_or_bundle_id contains unsupported characters"
    );
}

#[test]
fn text_input_limits_length_and_control_characters() {
    assert!(text_input("hello world").is_ok());
    assert!(text_input("").is_ok());
    assert!(text_input(&"a".repeat(4096)).is_ok());
    assert_eq!(invalid(text_input(&"a".repeat(4097))), "text is too long");
    assert_eq!(invalid(text_input(&"é".repeat(2049))), "text is too long");
    assert_eq!(
        invalid(text_input("a\nb")),
        "text contains unsupported control characters"
    );
    assert_eq!(
        invalid(text_input("a\0")),
        "text contains unsupported control characters"
    );
    assert_eq!(
        invalid(text_input("\r")),
        "text contains unsupported control characters"
    );
}

#[test]
fn key_input_accepts_key_names() {
    assert!(key_input("KEYCODE_HOME").is_ok());
    assert!(key_input("a.b-c_d").is_ok());
    assert_eq!(invalid(key_input("")), "key cannot be empty");
    assert_eq!(invalid(key_input("a b")), "key contains unsupported characters");
}

#[test]
fn coordinates_are_bounded() {
    assert!(coordinate(0, "x").is_ok());
    assert!(coordinate(100_000, "x").is_ok());
    assert_eq!(invalid(coordinate(100_001, "y1")), "y1 is out of range");
}

#[test]
fn readable_file_requires_an_existing_file() {
    let file = tempfile::NamedTempFile::new().unwrap();
    assert!(readable_file(file.path()).is_ok());
    let dir = tempfile::tempdir().unwrap();
    let message = invalid(readable_file(dir.path()));
    assert!(message.starts_with("file does not exist: "));
    let missing = dir.path().join("missing.apk");
    assert_eq!(
        invalid(readable_file(&missing)),
        format!("file does not exist: {}", missing.display())
    );
}

#[test]
fn file_checks_show_the_path() {
    assert!(file_check(true, "/tmp/app.apk").is_ok());
    assert_eq!(invalid(file_check(false, "/tmp/App.app")), "file does not exist: /tmp/App.app");
}

#[test]
fn points_name_the_first_coordinate_out_of_range() {
    assert!(point(0, 100_000).is_ok());
    assert_eq!(invalid(point(100_001, 100_001)), "x is out of range");
    assert_eq!(invalid(point(5, 100_001)), "y is out of range");
    assert!(swipe_points(1, 2, 3, 4).is_ok());
    assert_eq!(invalid(swipe_points(1, 200_000, 300_000, 4)), "y1 is out of range");
    assert_eq!(invalid(swipe_points(1, 2, 3, 100_001)), "y2 is out of range");
    assert_eq!(invalid(swipe_points(100_001, 2, 3, 4)), "x1 is out of range");
    assert_eq!(invalid(swipe_points(1, 2, 100_001, 4)), "x2 is out of range");
}
