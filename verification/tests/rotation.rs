use prologger::rotation::{FileOp, Rotator};
use prologger::RotationConfig;

#[test]
fn test_rotation_config_defaults() {
    let config = RotationConfig::default();
    assert_eq!(config.max_size, 10_000_000);
    assert_eq!(config.max_files, 5);
}

#[test]
fn test_rotation_config_megabytes() {
    let config = RotationConfig::megabytes(5, 3);
    assert_eq!(config.max_size, 5_000_000);
    assert_eq!(config.max_files, 3);
}

fn remove(p: &str) -> FileOp {
    FileOp::RemoveIfExists(p.to_string())
}

fn rename(a: &str, b: &str) -> FileOp {
    FileOp::RenameIfExists(a.to_string(), b.to_string())
}

fn same(a: &[FileOp], b: &[FileOp]) -> bool {
    format!("{:?}", a) == format!("{:?}", b)
}

#[test]
fn rotation_plan_shifts_backups() {
    let rotator = Rotator::new("logs/app.log", RotationConfig::new(100, 3));
    let plan = rotator.rotation_plan();
    assert!(same(
        &plan,
        &[
            remove("logs/app.log.3"),
            rename("logs/app.log.2", "logs/app.log.3"),
            rename("logs/app.log.1", "logs/app.log.2"),
            rename("logs/app.log", "logs/app.log.1"),
        ]
    ));
    let one = Rotator::new("a", RotationConfig::new(1, 1)).rotation_plan();
    assert!(same(&one, &[remove("a.1"), rename("a", "a.1")]));
    let none = Rotator::new("a", RotationConfig::new(1, 0)).rotation_plan();
    assert!(same(&none, &[remove("a")]));
}

#[test]
fn rotation_threshold_and_paths() {
    let rotator = Rotator::new("test.log", RotationConfig::new(50, 3));
    assert!(rotator.needs_rotation(100));
    assert!(rotator.needs_rotation(50));
    assert!(!rotator.needs_rotation(49));
    assert_eq!(rotator.rotated_path(1), "test.log.1");
    assert_eq!(rotator.rotated_path(12), "test.log.12");
    assert_eq!(rotator.base_path(), "test.log");
}
