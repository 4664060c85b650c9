use uc2_node::backup::{
    check_manifest, looks_like_instance_layout, manifest_text, manifest_value, names_to_copy,
    next_dir, parse_snap_pos, report_recovered, scan_snapshots, state_files, verify_recovered, BackupDir,
    BackupError, BackupReport, Recovered,
};

#[test]
fn parse_snap_pos_matches_the_store_convention() {
    assert_eq!(parse_snap_pos("snap-1234.ultsnap"), Some(1234));
    assert_eq!(parse_snap_pos("snap-0.ultsnap"), Some(0));
    assert_eq!(parse_snap_pos("snap-1234.ultsnap.tmp"), None);
    assert_eq!(parse_snap_pos("garbage"), None);
}

#[test]
fn manifest_roundtrips() {
    let report = BackupReport {
        journal_first_base: 100,
        journal_last_pos: 5000,
        newest_snapshot: Some(200),
        snapshot_floor: 200,
        healed_torn_tail: true,
        files: 7,
    };
    let text = manifest_text(&report, 1_755_600_000_000_000_000);
    check_manifest(&text, &report).unwrap();
}

#[test]
fn manifest_roundtrips_with_no_snapshot() {
    let report = BackupReport {
        journal_first_base: 0,
        journal_last_pos: 5000,
        newest_snapshot: None,
        snapshot_floor: 0,
        healed_torn_tail: false,
        files: 3,
    };
    check_manifest(&manifest_text(&report, 7), &report).unwrap();
}

#[test]
fn check_manifest_catches_a_tampered_field() {
    let report = BackupReport {
        journal_first_base: 100,
        journal_last_pos: 5000,
        newest_snapshot: Some(200),
        snapshot_floor: 200,
        healed_torn_tail: false,
        files: 7,
    };
    let text = manifest_text(&report, 7);
    let mut wrong = report;
    wrong.journal_first_base += 1;
    let err = check_manifest(&text, &wrong).unwrap_err();
    assert!(matches!(err, BackupError::ManifestMismatch(_)));
}

fn plain() -> BackupReport {
    BackupReport {
        journal_first_base: 1,
        journal_last_pos: 2,
        newest_snapshot: Some(3),
        snapshot_floor: 4,
        healed_torn_tail: true,
        files: 5,
    }
}

#[test]
fn the_manifest_text_is_exact() {
    assert_eq!(
        manifest_text(&plain(), 9),
        "format=uc2-backup-v1\njournal_first_base=1\njournal_last_pos=2\nnewest_snapshot=3\n\
         snapshot_floor=4\nhealed_torn_tail=true\ncreated_unix_ns=9\n"
    );
    assert_eq!(manifest_value(None), "none");
}

fn complaint(text: &str) -> String {
    match check_manifest(text, &plain()).unwrap_err() {
        BackupError::ManifestMismatch(m) => m,
        other => panic!("{other:?}"),
    }
}

#[test]
fn every_manifest_complaint_names_its_key() {
    let good = manifest_text(&plain(), 9);
    assert_eq!(complaint(&good.replace("format=uc2-backup-v1\n", "")), "missing key format");
    assert_eq!(
        complaint(&good.replace("uc2-backup-v1", "uc2\tv2")),
        "unknown format \"uc2\\tv2\""
    );
    assert_eq!(
        complaint(&good.replace("journal_first_base=1", "journal_first_base=one")),
        "journal_first_base: not a u64 in manifest (\"one\")"
    );
    assert_eq!(
        complaint(&good.replace("journal_last_pos=2", "journal_last_pos=22")),
        "journal_last_pos: manifest says 22, artifact recovers 2"
    );
    assert_eq!(
        complaint(&good.replace("newest_snapshot=3", "newest_snapshot=none")),
        "newest_snapshot: manifest says none, artifact recovers 3"
    );
    assert_eq!(
        complaint(&good.replace("newest_snapshot=3", "newest_snapshot=x")),
        "newest_snapshot: not a u64 in manifest (\"x\")"
    );
    assert_eq!(
        complaint(&good.replace("snapshot_floor=4", "snapshot_floor=18446744073709551616")),
        "snapshot_floor: not a u64 in manifest (\"18446744073709551616\")"
    );
    assert_eq!(
        complaint(&good.replace("healed_torn_tail=true", "healed_torn_tail=false")),
        "healed_torn_tail: manifest says false, artifact recovers true"
    );
    assert_eq!(
        complaint(&good.replace("healed_torn_tail=true", "healed_torn_tail=yes")),
        "healed_torn_tail: not a bool (\"yes\")"
    );
    assert_eq!(
        complaint(&good.replace("created_unix_ns=9\n", "")),
        "missing key created_unix_ns"
    );
}

#[test]
fn a_manifest_is_read_line_by_line_and_the_last_value_of_a_key_wins() {
    let good = manifest_text(&plain(), 9);
    // Carriage returns, lines without a key, and a leading plus are fine.
    let crlf = good.replace('\n', "\r\n");
    check_manifest(&crlf, &plain()).unwrap();
    let noisy = good.replace("snapshot_floor=4", "a comment\nsnapshot_floor=+04");
    check_manifest(&noisy, &plain()).unwrap();
    let twice = format!("{good}journal_last_pos=8\n");
    assert_eq!(complaint(&twice), "journal_last_pos: manifest says 8, artifact recovers 2");
    let healed = format!("{twice}journal_last_pos=2");
    check_manifest(&healed, &plain()).unwrap();
}

#[test]
fn the_journal_is_copied_first_and_the_active_segment_last() {
    let order: Vec<Option<BackupDir>> = (0..4).map(next_dir).collect();
    assert_eq!(
        order,
        vec![Some(BackupDir::Journal), Some(BackupDir::State), Some(BackupDir::Snapshots), None]
    );
    let found: Vec<String> = ["seg-00000000000000000002.log", "a", "seg-00000000000000000001.log"]
        .iter()
        .map(|s| s.to_string())
        .collect();
    assert_eq!(
        names_to_copy(BackupDir::Journal, &found),
        vec!["a", "seg-00000000000000000001.log", "seg-00000000000000000002.log"]
    );
}

#[test]
fn names_are_ordered_as_std_orders_them() {
    let found: Vec<String> =
        ["b", "", "ab", "a", "\u{e9}", "\u{10400}", "\u{fffd}", "a", "B"].iter().map(|s| s.to_string()).collect();
    let mut sorted = found.clone();
    sorted.sort();
    assert_eq!(names_to_copy(BackupDir::State, &found), sorted);
}

#[test]
fn only_complete_snapshots_count() {
    let found: Vec<String> =
        ["snap-20.ultsnap", "snap-3.ultsnap", "snap-99.ultsnap.tmp", "x"].iter().map(|s| s.to_string()).collect();
    assert_eq!(
        names_to_copy(BackupDir::Snapshots, &found),
        vec!["snap-20.ultsnap", "snap-3.ultsnap"]
    );
    assert_eq!(scan_snapshots(&found), (Some(20), 2));
    assert_eq!(scan_snapshots(&Vec::new()), (None, 0));
}

fn recovered(first_base: u64) -> Recovered {
    Recovered {
        journal_first_base: first_base,
        journal_last_pos: 5000,
        healed_torn_tail: false,
        snapshot_floor: None,
        journal_files: 2,
        state_files: 5,
    }
}

#[test]
fn a_purged_journal_needs_a_snapshot_that_covers_its_start() {
    let snaps = |n: u64| vec![format!("snap-{n}.ultsnap")];
    let err = verify_recovered(&recovered(100), &snaps(99)).unwrap_err();
    assert!(matches!(err, BackupError::Hole { first_base: 100, newest_snapshot: Some(99) }));
    assert_eq!(
        err.message(),
        "hole: journal first_base=100 is not covered by any retained snapshot (newest_snapshot=Some(99))"
    );
    assert!(verify_recovered(&recovered(100), &Vec::new()).is_err());
    let report = verify_recovered(&recovered(100), &snaps(100)).unwrap();
    assert_eq!(report.newest_snapshot, Some(100));
    assert_eq!(report.snapshot_floor, 0);
    assert_eq!(report.files, 2 + 5 + 1);
    assert_eq!(verify_recovered(&recovered(0), &Vec::new()).unwrap().newest_snapshot, None);
}

#[test]
fn a_report_counts_every_file_and_is_given_of_a_copy_with_a_hole_too() {
    let rec = Recovered { state_files: 7, ..recovered(100) };
    let found = vec!["snap-99.ultsnap".to_string(), "snap-100.ultsnap.tmp".to_string()];
    let report = report_recovered(&rec, &found);
    assert_eq!(report.files, 2 + 7 + 1);
    assert_eq!(report.newest_snapshot, Some(99));
    assert!(verify_recovered(&rec, &found).is_err());
    let whole = vec!["snap-100.ultsnap".to_string()];
    assert_eq!(verify_recovered(&rec, &whole).unwrap(), report_recovered(&rec, &whole));
}

#[test]
fn snapshots_copied_after_the_journal_cover_a_purge_in_between() {
    // Before: nothing is purged beyond 100. After: 300 is published, and the
    // journal is purged up to it.
    let (base_before, base_after) = (100, 300);
    let before = vec!["snap-100.ultsnap".to_string(), "snap-300.tmp".to_string()];
    let after = vec!["snap-300.ultsnap".to_string(), "snap-100.ultsnap".to_string()];

    let kept = names_to_copy(BackupDir::Snapshots, &after);
    assert!(verify_recovered(&recovered(base_before), &kept).is_ok());
    assert!(verify_recovered(&recovered(base_after), &kept).is_ok());

    let too_early = names_to_copy(BackupDir::Snapshots, &before);
    assert!(verify_recovered(&recovered(base_before), &too_early).is_ok());
    let err = verify_recovered(&recovered(base_after), &too_early).unwrap_err();
    assert!(matches!(err, BackupError::Hole { first_base: 300, newest_snapshot: Some(100) }));
}

#[test]
fn an_instance_layout_has_both_directories_and_every_state_file() {
    assert_eq!(state_files().len(), 5);
    assert!(looks_like_instance_layout(true, true, &vec![true; 5]));
    assert!(!looks_like_instance_layout(false, true, &vec![true; 5]));
    assert!(!looks_like_instance_layout(true, false, &vec![true; 5]));
    assert!(!looks_like_instance_layout(true, true, &vec![true, true, false, true, true]));
}

#[test]
fn backup_failures_in_words() {
    assert_eq!(BackupError::Io("disk on fire".to_string()).message(), "io error: disk on fire");
    assert_eq!(
        BackupError::NotAnInstanceDir.message(),
        "not an instance directory: missing journal/, state/, or one of the state/*.state files"
    );
    assert_eq!(
        BackupError::ArtifactExists.message(),
        "artifact output directory already exists and is not empty"
    );
    assert_eq!(
        BackupError::NotAnArtifact.message(),
        "not a backup artifact: missing or corrupt journal/state layout"
    );
    assert_eq!(
        BackupError::ManifestMismatch("x".to_string()).message(),
        "manifest mismatch: x"
    );
    let hole = BackupError::Hole { first_base: 1, newest_snapshot: None };
    assert!(hole.message().ends_with("(newest_snapshot=None)"));
}
