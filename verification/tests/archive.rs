use cmdc::archive::{
    archive_name, archive_path, blob_key, kind_of_entry, todays_archive, unzip_path, EntryKind,
};

#[test]
fn archive_names() {
    assert_eq!(archive_name("2025-03-07"), "md-2025-03-07.zip");
    assert_eq!(archive_path("2025-03-07"), "./md-2025-03-07.zip");
    assert_eq!(blob_key("2025-03-07"), "2025-03-07/md-2025-03-07.zip");
}

#[test]
fn archive_of_today() {
    let names = todays_archive();
    assert_eq!(names.date.len(), 10);
    assert_eq!(names.path, format!("./md-{}.zip", names.date));
    assert_eq!(names.key, format!("{}/md-{}.zip", names.date, names.date));
    let parts: Vec<&str> = names.date.split('-').collect();
    assert_eq!(parts.len(), 3);
    assert!(parts.iter().all(|p| p.chars().all(|c| c.is_ascii_digit())));
    assert_eq!((parts[0].len(), parts[1].len(), parts[2].len()), (4, 2, 2));
    let month: u32 = parts[1].parse().unwrap();
    let day: u32 = parts[2].parse().unwrap();
    assert!((1..=12).contains(&month));
    assert!((1..=31).contains(&day));
}

#[test]
fn entries_are_directories_or_files() {
    assert_eq!(kind_of_entry("dir/"), EntryKind::Directory);
    assert_eq!(kind_of_entry("a/b/"), EntryKind::Directory);
    assert_eq!(kind_of_entry("/"), EntryKind::Directory);
    assert_eq!(kind_of_entry("COTAHIST_A2025.TXT"), EntryKind::File);
    assert_eq!(kind_of_entry("a/b"), EntryKind::File);
    assert_eq!(kind_of_entry(""), EntryKind::File);
    assert_eq!(kind_of_entry("pa\u{e7}o/"), EntryKind::Directory);
    assert_eq!(kind_of_entry("pa\u{e7}"), EntryKind::File);
}

#[test]
fn unpacking_plan() {
    let names =
        vec!["data/".to_string(), "data/COTAHIST_A2025.TXT".to_string(), "readme".to_string()];
    assert_eq!(unzip_path(&names), vec![EntryKind::Directory, EntryKind::File, EntryKind::File]);
    assert_eq!(unzip_path(&Vec::new()), Vec::<EntryKind>::new());
}
