use std::path::Path;

/// The maintenance-task document ships with the crate, as the
/// `issue_tasks` documentation module.
#[test]
fn test_issue_tasks_file_exists() {
    let file_path = "src/issue_tasks.rs";
    assert!(
        Path::new(file_path).exists(),
        "the maintenance-task document should exist in the crate"
    );
}
