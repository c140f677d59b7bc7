use fundlens::backup::{
    backup_dir, backup_name, has_backup_today, keep_count, list_backups, new_backup_name,
    parse_name, prune, set_keep_count, stamp_to_at, BackupEntry, FoundBackup, DEFAULT_KEEP,
};
use fundlens::date::Date;
use fundlens::moment::Moment;

#[test]
fn stamp_to_at_formats() {
    assert_eq!(stamp_to_at("20260910-194657"), "2026-09-10 19:46:57");
    assert_eq!(stamp_to_at("bad"), "bad");
}

#[test]
fn parse_name_extracts_stamp_and_tag() {
    assert_eq!(
        parse_name("fundlens-20260910-194657-pre-import.db"),
        Some(("20260910-194657".to_string(), "pre-import".to_string()))
    );
    assert_eq!(
        parse_name("fundlens-20260910-194657-manual_3.db"),
        Some(("20260910-194657".to_string(), "manual".to_string()))
    );
    assert_eq!(parse_name("other-file.db"), None);
}

#[test]
fn keep_count_clamped_and_persisted() {
    assert_eq!(keep_count(None), DEFAULT_KEEP);
    let (low, stored) = set_keep_count(0);
    assert_eq!(low, 1);
    assert_eq!(keep_count(Some(stored)), 1);
    let (high, stored) = set_keep_count(999);
    assert_eq!(high, 60);
    assert_eq!(keep_count(Some(stored)), 60);
    assert_eq!(keep_count(Some("nonsense".to_string())), DEFAULT_KEEP);
}

/// A backup directory that holds names only.
struct Dir {
    names: Vec<String>,
    keep: i64,
}

impl Dir {
    fn list(&self) -> Vec<BackupEntry> {
        let found: Vec<FoundBackup> =
            self.names.iter().map(|n| FoundBackup { name: n.clone(), size: 10 }).collect();
        list_backups(&found)
    }

    fn create(&mut self, stamp: &str, tag: &str) -> String {
        let name = new_backup_name(stamp, tag, &self.names);
        self.names.push(name.clone());
        let gone = prune(&self.list(), self.keep);
        self.names.retain(|n| !gone.contains(n));
        name
    }
}

#[test]
fn create_list_and_prune_keep_n() {
    let mut dir = Dir { names: Vec::new(), keep: set_keep_count(2).0 };
    for _ in 0..3 {
        dir.create("20260910-194657", "manual");
    }
    let listed = dir.list();
    assert_eq!(listed.len(), 2);
    assert!(listed.iter().all(|b| b.size > 0));

    let latest = dir.create("20260910-194657", "pre-import");
    let listed2 = dir.list();
    assert_eq!(listed2.len(), 2);
    assert_eq!(listed2[0].file, latest);
    assert_eq!(listed2[0].tag, "pre-import");
}

#[test]
fn auto_backup_daily_only_once_per_day() {
    let mut dir = Dir { names: Vec::new(), keep: DEFAULT_KEEP };
    let now = Moment {
        date: Date::new(2026, 9, 10).unwrap(),
        hour: 19,
        minute: 46,
        second: 57,
        milli: 3,
    };
    let today = now.date.iso();
    assert!(!has_backup_today(&dir.list(), &today));
    let first = dir.create(&now.short_stamp(), "auto");
    assert!(!first.is_empty());
    assert!(has_backup_today(&dir.list(), &today));
    assert!(!has_backup_today(&dir.list(), "2026-09-11"));
}

#[test]
fn names_of_one_second_are_told_apart() {
    let mut taken = Vec::new();
    for expected in [
        "fundlens-20260910-194657-manual.db",
        "fundlens-20260910-194657-manual_2.db",
        "fundlens-20260910-194657-manual_3.db",
    ] {
        let name = new_backup_name("20260910-194657", "manual", &taken);
        assert_eq!(name, expected);
        taken.push(name);
    }
}

#[test]
fn names_read_back() {
    for n in 1..4 {
        let name = backup_name("20260910-194657", "pre-import", n);
        assert_eq!(
            parse_name(&name),
            Some(("20260910-194657".to_string(), "pre-import".to_string()))
        );
    }
}

#[test]
fn other_names_are_no_backups() {
    for name in [
        "fundlens-abcdefghijklmno-auto.db",
        "fundlens-20260910x194657-auto.db",
        "fundlens-2026091-1946571-auto.db",
        "fundlens-20260910-19465-auto.db",
        "fundlens-二〇二六年-auto.db",
        "fundlens-20260910-194657-auto.txt",
    ] {
        assert_eq!(parse_name(name), None);
    }
    assert_eq!(
        parse_name("fundlens-20260910-194657.db"),
        Some(("20260910-194657".to_string(), "auto".to_string()))
    );
    let dir = Dir {
        names: vec![
            "fundlens-zzzzzzzzzzzzzzz-auto.db".to_string(),
            "fundlens-20260910-000000-手动.db".to_string(),
        ],
        keep: 1,
    };
    assert_eq!(dir.list().len(), 1);
    assert_eq!(dir.list()[0].tag, "手动");
    assert!(prune(&dir.list(), 1).is_empty());
}

#[test]
fn pruning_removes_the_oldest() {
    let dir = Dir {
        names: vec![
            "fundlens-20260908-000000-auto.db".to_string(),
            "fundlens-20260910-000000-auto.db".to_string(),
            "notes.txt".to_string(),
            "fundlens-20260909-000000-auto.db".to_string(),
        ],
        keep: 1,
    };
    assert_eq!(
        prune(&dir.list(), 2),
        vec!["fundlens-20260908-000000-auto.db".to_string()]
    );
    assert_eq!(prune(&dir.list(), 3), Vec::<String>::new());
    assert_eq!(dir.list()[0].at, "2026-09-10 00:00:00");
}

#[test]
fn backups_lie_beside_the_database() {
    let db = vec!["data".to_string(), "fundlens.db".to_string()];
    assert_eq!(backup_dir(&db), vec!["data".to_string(), "backups".to_string()]);
}
