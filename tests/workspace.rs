use sparus::updater::{DownloadInfos, ProgressTracker};
use sparus::workspace::WorkspaceState;

fn s(text: &str) -> String {
    text.to_string()
}

fn snap(pkg: usize, total: usize) -> DownloadInfos {
    DownloadInfos {
        packages_start: pkg,
        packages_end: total,
        downloaded_files_start: pkg,
        downloaded_files_end: total,
        downloaded_bytes_start: 0,
        downloaded_bytes_end: 0,
        applied_files_start: pkg,
        applied_files_end: total,
        applied_input_bytes_start: 0,
        applied_input_bytes_end: 0,
        applied_output_bytes_start: 0,
        applied_output_bytes_end: 0,
        failed_files: 0,
    }
}

#[test]
fn fresh_install_reaches_current_version() {
    let mut tracker = ProgressTracker::new();
    let mut ws = WorkspaceState::Clean { version: s("") }.begin("1.2.0", 2);
    assert!(!ws.is_clean());
    assert_eq!(ws.state_file(), None);
    let mut emitted = Vec::new();
    for pkg in 0..2 {
        let step = tracker.observe(snap(pkg, 2));
        emitted.extend(step.emit);
        ws = ws.commit();
    }
    assert!(ws.is_clean());
    assert_eq!(ws.state_file().unwrap().state.stable.version, s("1.2.0"));
    assert!(emitted.iter().any(|e| e.packages_end >= 1));
    assert!(emitted.iter().all(|e| e.failed_files == 0));
}

#[test]
fn idempotent_update_does_nothing() {
    let ws = WorkspaceState::Clean { version: s("1.2.0") }.begin("1.2.0", 0);
    assert_eq!(ws, WorkspaceState::Clean { version: s("1.2.0") });
    let mut tracker = ProgressTracker::new();
    let step = tracker.observe(snap(0, 0));
    assert_eq!(step.emit, Some(snap(0, 0)));
    assert_eq!(ws.state_file().unwrap().state.stable.version, s("1.2.0"));
    let again = WorkspaceState::Clean { version: s("1.2.0") }.begin("1.2.0", 3);
    assert_eq!(again, WorkspaceState::Clean { version: s("1.2.0") });
}

#[test]
fn cancel_then_resume_matches_uninterrupted_run() {
    let start = || WorkspaceState::Clean { version: s("1.0.0") };
    let mut straight = start().begin("1.3.0", 3);
    for _ in 0..3 {
        straight = straight.commit();
    }

    let mut tracker = ProgressTracker::new();
    let mut ws = start().begin("1.3.0", 3);
    assert!(tracker.observe(snap(0, 3)).proceed);
    ws = ws.commit();
    tracker.cancel();
    assert!(!tracker.observe(snap(1, 3)).proceed);
    assert_eq!(
        ws,
        WorkspaceState::Updating { from: s("1.0.0"), to: s("1.3.0"), step: 1, total: 3 }
    );

    let mut resumed = ws.begin("1.3.0", 3);
    assert_eq!(
        resumed,
        WorkspaceState::Updating { from: s("1.0.0"), to: s("1.3.0"), step: 1, total: 3 }
    );
    for _ in 0..2 {
        resumed = resumed.commit();
    }
    assert_eq!(resumed, straight);
    assert_eq!(resumed, WorkspaceState::Clean { version: s("1.3.0") });
}

#[test]
fn new_goal_restarts_and_broken_workspace_is_rebuilt() {
    let ws = WorkspaceState::Updating { from: s("1.0.0"), to: s("1.3.0"), step: 1, total: 3 };
    assert_eq!(
        ws.begin("2.0.0", 4),
        WorkspaceState::Updating { from: s("1.0.0"), to: s("2.0.0"), step: 0, total: 4 }
    );
    let broken = WorkspaceState::Clean { version: s("1.0.0") }.corrupted();
    assert_eq!(broken, WorkspaceState::Broken);
    assert_eq!(broken.state_file(), None);
    assert_eq!(
        broken.begin("1.0.0", 1),
        WorkspaceState::Updating { from: s(""), to: s("1.0.0"), step: 0, total: 1 }
    );
    assert_eq!(WorkspaceState::Broken.begin("1.0.0", 0), WorkspaceState::Clean { version: s("1.0.0") });
}

#[test]
fn commit_through_records_reported_packages() {
    let ws = WorkspaceState::Clean { version: s("1.0.0") }.begin("1.3.0", 3);
    let ws = ws.commit_through(2);
    assert_eq!(ws, WorkspaceState::Updating { from: s("1.0.0"), to: s("1.3.0"), step: 2, total: 3 });
    let same = ws.commit_through(1);
    assert_eq!(same, WorkspaceState::Updating { from: s("1.0.0"), to: s("1.3.0"), step: 2, total: 3 });
    assert_eq!(same.commit_through(3), WorkspaceState::Clean { version: s("1.3.0") });
    let clean = WorkspaceState::Clean { version: s("1.0.0") };
    assert_eq!(clean.commit_through(5), WorkspaceState::Clean { version: s("1.0.0") });
}
