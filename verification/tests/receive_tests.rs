use lsend::receive_path::{candidate_path, choose_free_path, fallback_path, plan_unique_path, validate_relative_file_name};
use lsend::receive_pin::{load_persisted, resolve};

#[test]
fn validate_relative_file_name_accepts_safe_names() {
    assert!(validate_relative_file_name("file.txt").is_ok());
    assert!(validate_relative_file_name("nested/file.txt").is_ok());
    assert!(validate_relative_file_name("a/b/c.txt").is_ok());
    assert!(validate_relative_file_name("file with spaces.txt").is_ok());
}

#[test]
fn validate_relative_file_name_rejects_absolute_paths() {
    assert!(validate_relative_file_name("/etc/passwd").is_err());
    assert!(validate_relative_file_name("/file.txt").is_err());
}

#[test]
fn validate_relative_file_name_rejects_parent_traversal() {
    assert!(validate_relative_file_name("../escape.txt").is_err());
    assert!(validate_relative_file_name("nested/../escape.txt").is_err());
    assert!(validate_relative_file_name("..").is_err());
}

#[test]
fn unique_path_preserves_nested_directories() {
    let plan = plan_unique_path("/tmp/in", "photos/vacation/beach.jpg").expect("resolve");
    assert_eq!(candidate_path(&plan, 0), "/tmp/in/photos/vacation/beach.jpg");
}

#[test]
fn unique_path_rejects_path_traversal() {
    assert!(plan_unique_path("/tmp", "../escape.txt").is_err());
    assert!(plan_unique_path("/tmp", "nested/../../escape.txt").is_err());
}

#[test]
fn unique_path_deduplicates_within_nested_directory() {
    let plan = plan_unique_path("/tmp/in", "docs/readme.md").expect("resolve");
    assert_eq!(candidate_path(&plan, 1), "/tmp/in/docs/readme (1).md");
}

#[test]
fn unique_path_returns_original_when_no_collision() {
    let plan = plan_unique_path("/tmp/in/", "new.txt").unwrap();
    assert_eq!(candidate_path(&plan, 0), "/tmp/in/new.txt");
}

#[test]
fn unique_path_dedup_chain_within_same_dir() {
    let plan = plan_unique_path("/tmp/in", "a.txt").unwrap();
    assert_eq!(candidate_path(&plan, 2), "/tmp/in/a (2).txt");
}

#[test]
fn unique_path_dedup_preserves_extension() {
    let plan = plan_unique_path("/tmp/in", "photo.png").unwrap();
    assert_eq!(candidate_path(&plan, 1), "/tmp/in/photo (1).png");
    let dotted = plan_unique_path("/tmp/in", "archive.tar.gz").unwrap();
    assert_eq!(candidate_path(&dotted, 1), "/tmp/in/archive.tar (1).gz");
    let hidden = plan_unique_path("/tmp/in", ".bashrc").unwrap();
    assert_eq!(candidate_path(&hidden, 1), "/tmp/in/.bashrc (1)");
}

#[test]
fn unique_path_handles_filename_without_extension() {
    let plan = plan_unique_path("/tmp/in", "README").unwrap();
    assert_eq!(candidate_path(&plan, 1), "/tmp/in/README (1)");
}

#[test]
fn unique_path_falls_back_to_uuid_suffix_when_all_slots_taken() {
    let plan = plan_unique_path("/tmp/in", "f.txt").unwrap();
    let name = fallback_path(&plan);
    let leaf = name.rsplit('/').next().unwrap().to_string();
    assert!(leaf.starts_with("f-"), "got: {leaf}");
    assert!(leaf.ends_with(".txt"), "got: {leaf}");
    assert_eq!(leaf.len(), "f-".len() + 36 + ".txt".len());
}

#[test]
fn unique_path_normalises_redundant_separators() {
    let plan = plan_unique_path("/tmp/in", "a//./b.txt").unwrap();
    assert_eq!(candidate_path(&plan, 0), "/tmp/in/a/b.txt");
    assert_eq!(plan_unique_path("/tmp/in", "./").unwrap_err(), "Invalid file name");
}

#[test]
fn cli_pin_is_persisted() {
    let choice = resolve(Some("654321".to_string()), None, None).unwrap();
    assert_eq!(choice.pin.as_deref(), Some("654321"));
    assert_eq!(choice.persist.as_deref(), Some("654321\n"));
    assert_eq!(load_persisted(&choice.persist).as_deref(), Some("654321"));
}

#[test]
fn loads_persisted_when_no_cli_pin() {
    let choice = resolve(None, Some("111222\n".to_string()), None).unwrap();
    assert_eq!(choice.pin.as_deref(), Some("111222"));
    assert!(choice.persist.is_none());
}

#[test]
fn empty_cli_pin_is_rejected() {
    let err = resolve(Some("".to_string()), None, None).expect_err("empty PIN");
    assert!(err.contains("must not be empty"));
}

#[test]
fn whitespace_cli_pin_is_trimmed() {
    let choice = resolve(Some("  123456  ".to_string()), None, None).unwrap();
    assert_eq!(choice.pin.as_deref(), Some("123456"));
}

#[test]
fn empty_persisted_file_treated_as_absent() {
    let choice = resolve(None, Some("\n".to_string()), None).unwrap();
    assert_eq!(choice.pin, None);
}

#[test]
fn env_fallback_when_no_file_and_no_cli() {
    let choice = resolve(None, None, Some("987654".to_string())).unwrap();
    assert_eq!(choice.pin.as_deref(), Some("987654"));
}

#[test]
fn env_empty_value_ignored() {
    let choice = resolve(None, None, Some("   ".to_string())).unwrap();
    assert_eq!(choice.pin, None);
}

#[test]
fn cli_pin_overrides_persisted() {
    let choice = resolve(Some("new-pin".to_string()), Some("old-pin\n".to_string()), None).unwrap();
    assert_eq!(choice.pin.as_deref(), Some("new-pin"));
    assert_eq!(load_persisted(&choice.persist).as_deref(), Some("new-pin"));
}

#[test]
fn choose_free_path_takes_the_first_free_candidate() {
    let plan = plan_unique_path("/tmp/in", "docs/readme.md").unwrap();
    assert_eq!(choose_free_path(&plan, &vec![false]), "/tmp/in/docs/readme.md");
    assert_eq!(choose_free_path(&plan, &vec![true, true, false]), "/tmp/in/docs/readme (2).md");
    let all_taken = vec![true; 1000];
    let fallback = choose_free_path(&plan, &all_taken);
    assert!(fallback.starts_with("/tmp/in/docs/readme-"));
    assert!(fallback.ends_with(".md"));
    assert_eq!(fallback.len(), "/tmp/in/docs/readme-".len() + 36 + 3);
}

#[test]
fn plan_keeps_the_name_as_written_but_trims_its_end() {
    let plan = plan_unique_path("/tmp/in", "./a.txt").unwrap();
    assert_eq!(candidate_path(&plan, 0), "/tmp/in/./a.txt");
    let plan = plan_unique_path("/tmp/in", "a/./b/c.txt").unwrap();
    assert_eq!(candidate_path(&plan, 0), "/tmp/in/a/./b/c.txt");
    let plan = plan_unique_path("/tmp/in", "a/./c.txt").unwrap();
    assert_eq!(candidate_path(&plan, 0), "/tmp/in/a/c.txt");
    let plan = plan_unique_path("/tmp/in", "a//b.txt").unwrap();
    assert_eq!(candidate_path(&plan, 0), "/tmp/in/a/b.txt");
    let plan = plan_unique_path("/tmp/in", "docs/").unwrap();
    assert_eq!(candidate_path(&plan, 0), "/tmp/in/docs");
    assert_eq!(plan_unique_path("/tmp/in", ".").unwrap_err(), "Invalid file name");
    assert_eq!(plan_unique_path("/tmp/in", "").unwrap_err(), "Invalid file name");
}
