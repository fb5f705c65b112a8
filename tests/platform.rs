use cargo_script_platform::error::{Blame, FsOp, MainError};
use cargo_script_platform::platform::unix::{
    self, get_cache_dir, get_config_dir, join_path, legacy_layout, migrate_old_data,
    plan_migration, Environment, LegacyState, MigrationNote,
};
use cargo_script_platform::platform::windows;
use cargo_script_platform::platform::{timespec_to_millis, MigrationKind};

fn b(s: &str) -> Vec<u8> {
    s.as_bytes().to_vec()
}

fn state(
    root: bool,
    old_script: bool,
    new_script: bool,
    old_binary: bool,
    new_binary: bool,
    entries: &[&str],
) -> LegacyState {
    LegacyState {
        root_exists: root,
        old_script_exists: old_script,
        new_script_exists: new_script,
        old_binary_exists: old_binary,
        new_binary_exists: new_binary,
        root_entries: entries.iter().map(|e| b(e)).collect(),
    }
}

fn notes(kind: MigrationKind, home: &str, s: &LegacyState) -> (Vec<MigrationNote>, Result<(), MainError>) {
    let plan = plan_migration(&Some(b(home)), s);
    migrate_old_data(kind, &plan, None)
}

#[test]
fn for_real_only_for_real() {
    assert!(MigrationKind::ForReal.for_real());
    assert!(!MigrationKind::DryRun.for_real());
}

#[test]
fn join_inserts_one_separator() {
    assert_eq!(join_path(b"/a", b"x"), b("/a/x"));
    assert_eq!(join_path(b"/a/", b"x"), b("/a/x"));
    assert_eq!(join_path(b"", b"x"), b("x"));
}

#[test]
fn layout_paths() {
    let l = legacy_layout(b"/h");
    assert_eq!(l.root, b("/h/.cargo"));
    assert_eq!(l.old_script_cache, b("/h/.cargo/script-cache"));
    assert_eq!(l.new_script_cache, b("/h/script-cache"));
    assert_eq!(l.old_binary_cache, b("/h/.cargo/binary-cache"));
    assert_eq!(l.new_binary_cache, b("/h/binary-cache"));
}

#[test]
fn override_without_legacy_is_used_directly() {
    let env = Environment { cargo_home: Some(b("/opt/ct")), home: Some(b("/home/u")) };
    let s = state(false, false, false, false, false, &[]);
    assert_eq!(get_cache_dir(&env, &s), Ok(b("/opt/ct")));
}

#[test]
fn override_with_empty_legacy_root_is_used_directly() {
    let env = Environment { cargo_home: Some(b("/opt/ct")), home: None };
    let s = state(true, false, false, false, false, &["other"]);
    assert_eq!(get_cache_dir(&env, &s), Ok(b("/opt/ct")));
}

#[test]
fn legacy_root_in_use_is_kept() {
    let env = Environment { cargo_home: Some(b("/opt/ct")), home: None };
    let s = state(true, false, false, true, false, &["binary-cache"]);
    assert_eq!(get_cache_dir(&env, &s), Ok(b("/opt/ct/.cargo")));
}

#[test]
fn home_fallback() {
    let env = Environment { cargo_home: None, home: Some(b("/home/u")) };
    let s = state(false, false, false, false, false, &[]);
    assert_eq!(get_cache_dir(&env, &s), Ok(b("/home/u/.cargo")));
    assert_eq!(get_config_dir(&env, &s), Ok(b("/home/u/.cargo")));
}

#[test]
fn no_variables_is_a_configuration_error() {
    let env = Environment { cargo_home: None, home: None };
    let s = state(false, false, false, false, false, &[]);
    let e = get_cache_dir(&env, &s).unwrap_err();
    assert_eq!(e, MainError::NoHomeDir);
    assert_eq!(e.blame(), Blame::Human);
    assert_eq!(get_config_dir(&env, &s), Err(MainError::NoHomeDir));
}

#[test]
fn scenario_moves_script_cache_and_removes_root() {
    let s = state(true, true, false, false, false, &["script-cache"]);
    let (report, result) = notes(MigrationKind::ForReal, "/home/u/.ctool", &s);
    assert_eq!(result, Ok(()));
    assert_eq!(
        report,
        vec![
            MigrationNote::Moved {
                from: b("/home/u/.ctool/.cargo/script-cache"),
                to: b("/home/u/.ctool/script-cache"),
            },
            MigrationNote::RemovedEmpty { dir: b("/home/u/.ctool/.cargo") },
        ]
    );
}

#[test]
fn scenario_plan_operations() {
    let s = state(true, true, false, false, false, &["script-cache"]);
    let plan = plan_migration(&Some(b("/home/u/.ctool")), &s);
    assert_eq!(plan.len(), 2);
    assert_eq!(
        plan[0].op,
        Some(FsOp::Rename {
            from: b("/home/u/.ctool/.cargo/script-cache"),
            to: b("/home/u/.ctool/script-cache"),
        })
    );
    assert_eq!(plan[1].op, Some(FsOp::RemoveDir { path: b("/home/u/.ctool/.cargo") }));
}

#[test]
fn no_legacy_root_is_a_no_op() {
    let s = state(false, false, false, false, false, &[]);
    let (report, result) = notes(MigrationKind::ForReal, "/h", &s);
    assert!(report.is_empty());
    assert_eq!(result, Ok(()));
    let plan = plan_migration(&None, &state(true, true, false, false, false, &["script-cache"]));
    assert!(plan.is_empty());
}

#[test]
fn dry_run_reports_like_real_run() {
    let s = state(true, true, false, true, true, &["script-cache", "binary-cache", "x"]);
    let dry = notes(MigrationKind::DryRun, "/h", &s);
    let real = notes(MigrationKind::ForReal, "/h", &s);
    assert_eq!(dry, real);
    assert_eq!(dry.0.len(), 3);
    let plan = plan_migration(&Some(b("/h")), &s);
    let dry_failed = migrate_old_data(MigrationKind::DryRun, &plan, Some((0, "denied".to_string())));
    assert_eq!(dry_failed, real);
}

#[test]
fn conflict_is_left_alone() {
    let s = state(true, true, true, false, false, &["script-cache"]);
    let plan = plan_migration(&Some(b("/h")), &s);
    assert_eq!(
        plan[0].note,
        MigrationNote::NotMoved { from: b("/h/.cargo/script-cache"), to: b("/h/script-cache") }
    );
    assert!(plan.iter().all(|st| st.op.is_none()));
    assert_eq!(plan[1].note, MigrationNote::NotRemoved { dir: b("/h/.cargo") });
}

#[test]
fn second_run_after_success_is_empty() {
    let s = state(true, true, false, true, false, &["script-cache", "binary-cache"]);
    let (first, ok) = notes(MigrationKind::ForReal, "/h", &s);
    assert_eq!(ok, Ok(()));
    assert_eq!(first.len(), 3);
    let after = state(false, false, true, false, true, &[]);
    let (second, ok2) = notes(MigrationKind::ForReal, "/h", &after);
    assert!(second.is_empty());
    assert_eq!(ok2, Ok(()));
}

#[test]
fn failure_stops_the_report() {
    let s = state(true, true, false, true, false, &["script-cache", "binary-cache"]);
    let plan = plan_migration(&Some(b("/h")), &s);
    let (report, result) = migrate_old_data(MigrationKind::ForReal, &plan, Some((1, "busy".to_string())));
    assert_eq!(report.len(), 1);
    let e = result.unwrap_err();
    assert_eq!(
        e,
        MainError::Io {
            op: FsOp::Rename { from: b("/h/.cargo/binary-cache"), to: b("/h/binary-cache") },
            message: "busy".to_string(),
        }
    );
    assert_eq!(e.blame(), Blame::Internal);
}

#[test]
fn binary_move_names_binary_paths() {
    let s = state(true, false, false, true, false, &["binary-cache"]);
    let (report, _) = notes(MigrationKind::DryRun, "/h", &s);
    assert_eq!(
        report[0],
        MigrationNote::Moved { from: b("/h/.cargo/binary-cache"), to: b("/h/binary-cache") }
    );
}

#[test]
fn byte_path_round_trip() {
    let p: Vec<u8> = vec![b'/', 0xff, 0xfe, b'a', 0x80];
    let e = unix::write_path(&p);
    assert_eq!(e, p);
    assert_eq!(unix::read_path(&e), p);
}

#[test]
fn wide_path_encoding() {
    let p: Vec<u16> = vec![0x0043, 0xd800, 0x1234];
    let e = windows::write_path(&p);
    assert_eq!(e, vec![0x43, 0x00, 0x00, 0xd8, 0x34, 0x12]);
    assert_eq!(windows::read_path(&e), Ok(p));
}

#[test]
fn wide_path_odd_length_is_an_error() {
    assert_eq!(windows::read_path(&[1, 2, 3]), Err(MainError::OddLength { len: 3 }));
    assert_eq!(windows::read_path(&[]), Ok(vec![]));
}

#[test]
fn clock_before_epoch_is_zero() {
    assert_eq!(timespec_to_millis(-1, 0), 0);
    assert_eq!(timespec_to_millis(5, -1), 0);
    assert_eq!(timespec_to_millis(2, 345_678_901), 2345);
    assert_eq!(timespec_to_millis(i64::MAX, 0), u64::MAX);
}

#[test]
fn mtime_conversion() {
    assert_eq!(unix::file_last_modified(None), 0);
    assert_eq!(unix::file_last_modified(Some(-7)), 0);
    assert_eq!(unix::file_last_modified(Some(12)), 12_000);
    assert_eq!(unix::file_last_modified(Some(i64::MAX)), u64::MAX);
}

#[test]
fn filetime_conversion() {
    assert_eq!(windows::file_last_modified(None), 0);
    assert_eq!(windows::file_last_modified(Some(5)), 0);
    assert_eq!(windows::file_last_modified(Some(116_444_736_000_000_000 + 12_340_000)), 1234);
}

#[test]
fn known_folder_dirs() {
    let base: Vec<u16> = "C:\\Users\\u\\AppData\\Local".encode_utf16().collect();
    let want: Vec<u16> = "C:\\Users\\u\\AppData\\Local\\Cargo".encode_utf16().collect();
    assert_eq!(windows::get_cache_dir(Ok(base.clone())), Ok(want.clone()));
    assert_eq!(windows::get_config_dir(Ok(base)), Ok(want));
    assert_eq!(windows::get_cache_dir(Err(-5)), Err(MainError::KnownFolder { code: -5 }));
}

#[test]
fn wide_family_has_nothing_to_migrate() {
    let (r, ok) = windows::migrate_old_data(MigrationKind::ForReal);
    assert!(r.is_empty());
    assert_eq!(ok, Ok(()));
    assert!(!windows::force_cargo_color());
}

#[test]
fn current_time_is_after_2020() {
    assert!(cargo_script_platform::platform::current_time() > 1_577_836_800_000);
}
