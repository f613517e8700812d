use astro_server_manager::rotation::{
    format_date, plan_rotation, plan_rotation_today, split_base_filename, DirEntry, LogDate, RotationError,
};

fn date() -> LogDate {
    LogDate::new(2025, 1, 15).unwrap()
}

fn files(names: &[&str]) -> Vec<DirEntry> {
    names.iter().map(|n| DirEntry { name: n.to_string(), is_file: true }).collect()
}

#[test]
fn empty_directory_gives_first_name() {
    let plan = plan_rotation("asm.log", &date(), &Vec::new()).unwrap();
    assert_eq!(plan.current, "asm_2025-01-15.log");
    assert!(plan.archive.is_empty());
}

#[test]
fn end_to_end_same_day_rotation() {
    let plan = plan_rotation("asm.log", &date(), &Vec::new()).unwrap();
    assert_eq!(plan.current, "asm_2025-01-15.log");
    // the first file was written, then the manager starts again the same day
    let plan = plan_rotation("asm.log", &date(), &files(&["asm_2025-01-15.log"])).unwrap();
    assert_eq!(plan.current, "asm_2025-01-15.1.log");
    assert_eq!(plan.archive.len(), 1);
    assert_eq!(plan.archive[0].source, "asm_2025-01-15.log");
    assert_eq!(plan.archive[0].target, "asm_2025-01-15.log.gz");
    assert!(!plan.archive[0].replace_target);
}

#[test]
fn third_call_after_two_plain_files() {
    let entries = files(&["asm_2025-01-15.log", "asm_2025-01-15.1.log"]);
    let plan = plan_rotation("asm.log", &date(), &entries).unwrap();
    assert_eq!(plan.current, "asm_2025-01-15.2.log");
}

#[test]
fn compressed_names_count_as_taken() {
    let entries = files(&["asm_2025-01-15.log.gz", "asm_2025-01-15.1.log.gz"]);
    let plan = plan_rotation("asm.log", &date(), &entries).unwrap();
    assert_eq!(plan.current, "asm_2025-01-15.2.log");
    assert!(plan.archive.is_empty());
}

#[test]
fn every_older_log_file_is_archived() {
    let mut entries = files(&[
        "asm_2025-01-14.log",
        "asm_2025-01-14.1.log",
        "asm_2025-01-13.log.gz",
        "other_2025-01-14.log",
        "asm_notes.txt",
        "asm_2025-01-12.log",
        "asm_2025-01-12.log.gz",
    ]);
    entries.push(DirEntry { name: "asm_dir.log".to_string(), is_file: false });
    let plan = plan_rotation("asm.log", &date(), &entries).unwrap();
    assert_eq!(plan.current, "asm_2025-01-15.log");
    let sources: Vec<&str> = plan.archive.iter().map(|s| s.source.as_str()).collect();
    assert_eq!(sources, vec!["asm_2025-01-14.log", "asm_2025-01-14.1.log", "asm_2025-01-12.log"]);
    for step in &plan.archive {
        assert_eq!(step.target, format!("{}.gz", step.source));
    }
    assert!(!plan.archive[0].replace_target);
    assert!(plan.archive[2].replace_target);
}

#[test]
fn base_name_with_separator_is_refused() {
    assert_eq!(plan_rotation("logs/asm.log", &date(), &Vec::new()).err(), Some(RotationError::InvalidBaseName));
    assert_eq!(plan_rotation("logs\\asm.log", &date(), &Vec::new()).err(), Some(RotationError::InvalidBaseName));
}

#[test]
fn base_name_without_extension_is_refused() {
    assert_eq!(plan_rotation("asm", &date(), &Vec::new()).err(), Some(RotationError::InvalidBaseName));
    assert_eq!(plan_rotation(".log", &date(), &Vec::new()).err(), Some(RotationError::InvalidBaseName));
    assert_eq!(plan_rotation("..", &date(), &Vec::new()).err(), Some(RotationError::InvalidBaseName));
    assert_eq!(plan_rotation("", &date(), &Vec::new()).err(), Some(RotationError::InvalidBaseName));
}

#[test]
fn base_name_splits_at_last_dot() {
    let (stem, ext) = split_base_filename("a.b.log").unwrap();
    assert_eq!(stem, "a.b");
    assert_eq!(ext, "log");
    let plan = plan_rotation("a.b.log", &date(), &Vec::new()).unwrap();
    assert_eq!(plan.current, "a.b_2025-01-15.log");
}

#[test]
fn too_many_log_files_of_one_day() {
    let mut names = vec!["asm_2025-01-15.log".to_string()];
    for i in 1..=10000 {
        names.push(format!("asm_2025-01-15.{}.log.gz", i));
    }
    let entries: Vec<DirEntry> = names.into_iter().map(|name| DirEntry { name, is_file: true }).collect();
    assert_eq!(plan_rotation("asm.log", &date(), &entries).err(), Some(RotationError::TooManyLogFiles));
}

#[test]
fn last_numbered_name_is_still_free() {
    let mut names = vec!["asm_2025-01-15.log".to_string()];
    for i in 1..10000 {
        names.push(format!("asm_2025-01-15.{}.log.gz", i));
    }
    let entries: Vec<DirEntry> = names.into_iter().map(|name| DirEntry { name, is_file: true }).collect();
    let plan = plan_rotation("asm.log", &date(), &entries).unwrap();
    assert_eq!(plan.current, "asm_2025-01-15.10000.log");
}

#[test]
fn dates_are_zero_padded() {
    assert_eq!(format_date(&LogDate::new(7, 3, 9).unwrap()), "0007-03-09");
    assert_eq!(format_date(&LogDate::new(2024, 12, 31).unwrap()), "2024-12-31");
    assert!(LogDate::new(2024, 13, 1).is_none());
    assert!(LogDate::new(-1, 1, 1).is_none());
    assert!(LogDate::new(2024, 1, 0).is_none());
}

#[test]
fn rotation_today_uses_the_current_date() {
    let now = jiff::Zoned::now();
    let plan = plan_rotation_today("asm.log", &Vec::new()).unwrap();
    assert_eq!(plan.current, format!("asm_{}.log", now.strftime("%Y-%m-%d")));
    assert_eq!(plan_rotation_today("a/b.log", &Vec::new()).err(), Some(RotationError::InvalidBaseName));
}
