use jcowork::log_files::{LogRotation, RotationStep, MAX_FILE_SIZE};

fn name_of(step: RotationStep) -> Option<String> {
    match step {
        RotationStep::NewDay(n) => Some(format!("new:{}", n)),
        RotationStep::Rotate(n) => Some(format!("rotate:{}", n)),
        RotationStep::Ready => None,
    }
}

#[test]
fn first_write_opens_the_day_file() {
    let mut r = LogRotation::new();
    assert_eq!(name_of(r.start("2026-05-15")), Some("new:2026-05-15.jsonl".to_string()));
    assert_eq!(r.resume(None), "2026-05-15.jsonl");
    r.opened();
    assert!(name_of(r.start("2026-05-15")).is_none());
    r.written(100);
    assert!(name_of(r.start("2026-05-15")).is_none());
}

#[test]
fn full_file_rotates_to_numbered_follow_ups() {
    let mut r = LogRotation::new();
    r.start("2026-05-15");
    r.resume(Some(10));
    r.opened();
    r.written(MAX_FILE_SIZE);
    assert_eq!(name_of(r.start("2026-05-15")), Some("rotate:2026-05-15-001.jsonl".to_string()));
    r.opened();
    r.written(MAX_FILE_SIZE + 5);
    assert_eq!(name_of(r.start("2026-05-15")), Some("rotate:2026-05-15-002.jsonl".to_string()));
    assert_eq!(r.file_name(), "2026-05-15-002.jsonl");
}

#[test]
fn existing_full_file_is_skipped_and_new_day_restarts() {
    let mut r = LogRotation::new();
    r.start("2026-05-15");
    assert_eq!(r.resume(Some(MAX_FILE_SIZE)), "2026-05-15-001.jsonl");
    r.opened();
    assert_eq!(name_of(r.start("2026-05-16")), Some("new:2026-05-16.jsonl".to_string()));
    assert_eq!(r.resume(Some(5)), "2026-05-16.jsonl");
}
