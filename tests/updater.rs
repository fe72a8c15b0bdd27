use sparus::errors::SparusError;
use sparus::updater::{
    update_available, update_available_from_text, DownloadInfos, ProgressStep, ProgressTracker, SemVer,
};

fn snap(pkg: usize, files: usize, failed: usize) -> DownloadInfos {
    DownloadInfos {
        packages_start: pkg,
        packages_end: 3,
        downloaded_files_start: files,
        downloaded_files_end: 10,
        downloaded_bytes_start: files as u64 * 100,
        downloaded_bytes_end: 1000,
        applied_files_start: files,
        applied_files_end: 10,
        applied_input_bytes_start: 0,
        applied_input_bytes_end: 0,
        applied_output_bytes_start: 0,
        applied_output_bytes_end: 0,
        failed_files: failed,
    }
}

#[test]
fn update_available_check() {
    assert_eq!(update_available_from_text("1.0.0", "1.0.0"), Ok(false));
    assert_eq!(update_available_from_text("1.0.0", "1.0.1"), Ok(true));
    assert_eq!(update_available_from_text("1.0.1", "1.0.0"), Ok(false));
    assert_eq!(update_available_from_text("1.0.0", "2.0.0-rc.1"), Ok(true));
    assert_eq!(update_available_from_text("1.0.0", "1.0.0-rc.1"), Ok(false));
    match update_available_from_text("1.0.0", "not a version") {
        Err(e) => assert_eq!(e.kind(), "semver"),
        Ok(_) => panic!("expected a semver error"),
    }
    match update_available_from_text("one", "1.0.0") {
        Err(SparusError::Semver(_)) => {}
        _ => panic!("expected a semver error"),
    }
}

#[test]
fn parsed_version_parts() {
    let v = SemVer::parse("1.2.3-beta.2+build.5").unwrap();
    assert_eq!((v.major(), v.minor(), v.patch()), (1, 2, 3));
    assert_eq!(v.pre(), "beta.2");
    assert_eq!(v.build(), "build.5");
    let local = SemVer::parse("1.2.0").unwrap();
    assert_eq!(update_available(&local, "1.2.0"), Ok(false));
    assert_eq!(update_available(&local, "1.3.0"), Ok(true));
    assert!(v.is_newer_than(&local));
    assert!(!local.is_newer_than(&v));
}

#[test]
fn progress_is_monotone_and_bounded() {
    let mut t = ProgressTracker::new();
    assert_eq!(t.observe(snap(0, 0, 0)), ProgressStep { emit: Some(snap(0, 0, 0)), proceed: true });
    assert_eq!(t.observe(snap(1, 4, 0)), ProgressStep { emit: Some(snap(1, 4, 0)), proceed: true });
    assert_eq!(t.observe(snap(1, 3, 0)), ProgressStep { emit: None, proceed: true });
    assert_eq!(t.observe(snap(2, 5, 1)), ProgressStep { emit: Some(snap(2, 5, 1)), proceed: true });
    assert_eq!(t.observe(snap(2, 6, 0)), ProgressStep { emit: None, proceed: true });
    assert_eq!(t.observe(snap(2, 11, 1)).emit, None);
    assert_eq!(t.observe(snap(3, 10, 1)).emit, Some(snap(3, 10, 1)));
}

#[test]
fn cancelled_run_stops() {
    let mut t = ProgressTracker::new();
    assert!(!t.cancelled());
    assert!(t.observe(snap(0, 0, 0)).proceed);
    t.cancel();
    assert!(t.cancelled());
    let step = t.observe(snap(1, 1, 0));
    assert!(!step.proceed);
    assert_eq!(step.emit, Some(snap(1, 1, 0)));
}
