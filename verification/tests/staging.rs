use yt_grab::staging::{
    bundled_newer, older_than, rename_blocked_by_target, CopyStaging, FileProbe, FileReplacement,
    ReplaceAction, ReplaceEvent, StagingAction, StagingEvent, StagingPhase,
};

const DAY: i128 = 86_400_000_000_000;
const WEEK: i128 = 7 * DAY;
const TWO_WEEKS: i128 = 14 * DAY;

#[test]
fn age_limits() {
    assert!(older_than(FileProbe::Missing, 0, WEEK));
    assert!(older_than(FileProbe::NoTime, 0, WEEK));
    assert!(!older_than(FileProbe::Modified(0), WEEK, WEEK));
    assert!(older_than(FileProbe::Modified(0), WEEK + 1, WEEK));
    assert!(older_than(FileProbe::Modified(10), 5, WEEK));
    assert!(!older_than(FileProbe::Modified(10), 10, WEEK));
    assert!(older_than(FileProbe::Modified(i128::MIN), i128::MAX, WEEK));
    assert!(!older_than(FileProbe::Modified(-DAY), 0, WEEK));
}

#[test]
fn bundled_is_newer() {
    assert!(!bundled_newer(FileProbe::Missing, FileProbe::Missing));
    assert!(!bundled_newer(FileProbe::Missing, FileProbe::Modified(5)));
    assert!(bundled_newer(FileProbe::Modified(5), FileProbe::Missing));
    assert!(bundled_newer(FileProbe::NoTime, FileProbe::Modified(5)));
    assert!(bundled_newer(FileProbe::Modified(5), FileProbe::NoTime));
    assert!(bundled_newer(FileProbe::Modified(6), FileProbe::Modified(5)));
    assert!(!bundled_newer(FileProbe::Modified(5), FileProbe::Modified(5)));
    assert!(!bundled_newer(FileProbe::Modified(4), FileProbe::Modified(5)));
}

#[test]
fn rename_retry_condition() {
    assert!(rename_blocked_by_target(true, None));
    assert!(rename_blocked_by_target(false, Some(80)));
    assert!(!rename_blocked_by_target(false, Some(5)));
    assert!(!rename_blocked_by_target(false, None));
}

#[test]
fn replacement_on_unix() {
    let (mut r, a) = FileReplacement::start(true);
    assert_eq!(a, ReplaceAction::CopyToTemp);
    assert_eq!(r.step(ReplaceEvent::Copied(true)), ReplaceAction::SetMode);
    assert_eq!(r.step(ReplaceEvent::ModeSet), ReplaceAction::RenameTempOverTarget);
    assert_eq!(r.step(ReplaceEvent::Renamed { ok: true, target_exists: false }), ReplaceAction::Finish(true));
}

#[test]
fn replacement_on_windows_retries_blocked_rename() {
    let (mut r, _) = FileReplacement::start(false);
    assert_eq!(r.step(ReplaceEvent::Copied(true)), ReplaceAction::RenameTempOverTarget);
    assert_eq!(r.step(ReplaceEvent::Renamed { ok: false, target_exists: true }), ReplaceAction::RemoveTarget);
    assert_eq!(r.step(ReplaceEvent::TargetRemoved), ReplaceAction::RenameTempOverTarget);
    assert_eq!(r.step(ReplaceEvent::Renamed { ok: false, target_exists: true }), ReplaceAction::RemoveTemp);
    assert_eq!(r.step(ReplaceEvent::TempRemoved), ReplaceAction::Finish(false));
}

#[test]
fn replacement_failures() {
    let (mut r, _) = FileReplacement::start(true);
    assert_eq!(r.step(ReplaceEvent::Copied(false)), ReplaceAction::Finish(false));
    let (mut s, _) = FileReplacement::start(true);
    s.step(ReplaceEvent::Copied(true));
    s.step(ReplaceEvent::ModeSet);
    assert_eq!(s.step(ReplaceEvent::Renamed { ok: false, target_exists: false }), ReplaceAction::RemoveTemp);
    assert_eq!(s.step(ReplaceEvent::TempRemoved), ReplaceAction::Finish(false));
    let (mut t, _) = FileReplacement::start(true);
    assert_eq!(t.step(ReplaceEvent::ModeSet), ReplaceAction::Finish(false));
}

fn finished(a: &StagingAction) -> Option<Option<String>> {
    match a {
        StagingAction::Finish(v) => Some(v.clone()),
        _ => None,
    }
}

#[test]
fn staging_without_user_path() {
    let (s, a) = CopyStaging::start(false);
    assert_eq!(s.phase, StagingPhase::Done);
    assert_eq!(finished(&a), Some(None));
}

#[test]
fn first_run_stages_checks_updates_and_places_deno() {
    let now = 100 * WEEK;
    let (mut s, a) = CopyStaging::start(true);
    assert!(matches!(a, StagingAction::CreateDir));
    assert!(matches!(s.step(StagingEvent::DirCreated(true)), StagingAction::ProbeCopies));
    let a = s.step(StagingEvent::CopiesProbed { bundled: FileProbe::Modified(5), user: FileProbe::Missing, now });
    assert!(matches!(a, StagingAction::StageBundled));
    assert!(matches!(s.step(StagingEvent::Staged(true)), StagingAction::ReadVersion));
    assert!(matches!(s.step(StagingEvent::VersionRead(Some("2025.01.01".to_string()))), StagingAction::ProbeMarker));
    let a = s.step(StagingEvent::MarkerProbed { marker: FileProbe::Missing, now });
    assert!(matches!(a, StagingAction::RunUpdate));
    assert!(matches!(s.step(StagingEvent::UpdateRan(true)), StagingAction::ReadVersion));
    assert!(matches!(s.step(StagingEvent::VersionRead(Some("2025.06.30".to_string()))), StagingAction::WriteMarker));
    assert!(matches!(s.step(StagingEvent::MarkerWritten), StagingAction::StageDeno));
    assert_eq!(finished(&s.step(StagingEvent::DenoStaged)), Some(Some("2025.06.30".to_string())));
    assert_eq!(s.phase, StagingPhase::Done);
}

#[test]
fn fresh_copy_is_kept_and_recent_check_skips_update() {
    let now = 100 * WEEK;
    let (mut s, _) = CopyStaging::start(true);
    s.step(StagingEvent::DirCreated(true));
    let a = s.step(StagingEvent::CopiesProbed {
        bundled: FileProbe::Modified(now - TWO_WEEKS),
        user: FileProbe::Modified(now - DAY),
        now,
    });
    assert!(matches!(a, StagingAction::ReadVersion));
    s.step(StagingEvent::VersionRead(Some("v1".to_string())));
    let a = s.step(StagingEvent::MarkerProbed { marker: FileProbe::Modified(now - WEEK), now });
    assert!(matches!(a, StagingAction::StageDeno));
    assert_eq!(finished(&s.step(StagingEvent::DenoStaged)), Some(Some("v1".to_string())));
}

#[test]
fn stale_copy_is_restaged() {
    let now = 100 * WEEK;
    let (mut s, _) = CopyStaging::start(true);
    s.step(StagingEvent::DirCreated(true));
    let a = s.step(StagingEvent::CopiesProbed {
        bundled: FileProbe::Modified(0),
        user: FileProbe::Modified(now - TWO_WEEKS - 1),
        now,
    });
    assert!(matches!(a, StagingAction::StageBundled));
}

#[test]
fn failed_update_keeps_version_and_records_check() {
    let now = 100 * WEEK;
    let (mut s, _) = CopyStaging::start(true);
    s.step(StagingEvent::DirCreated(true));
    s.step(StagingEvent::CopiesProbed { bundled: FileProbe::Missing, user: FileProbe::Modified(now), now });
    s.step(StagingEvent::VersionRead(Some("v1".to_string())));
    s.step(StagingEvent::MarkerProbed { marker: FileProbe::Modified(now - WEEK - 1), now });
    assert!(matches!(s.step(StagingEvent::UpdateRan(false)), StagingAction::WriteMarker));
    assert!(matches!(s.step(StagingEvent::MarkerWritten), StagingAction::StageDeno));
    assert_eq!(finished(&s.step(StagingEvent::DenoStaged)), Some(Some("v1".to_string())));
}

#[test]
fn broken_copies_are_removed() {
    let now = 100 * WEEK;
    let (mut s, _) = CopyStaging::start(true);
    s.step(StagingEvent::DirCreated(true));
    s.step(StagingEvent::CopiesProbed { bundled: FileProbe::Missing, user: FileProbe::Modified(now), now });
    assert!(matches!(s.step(StagingEvent::VersionRead(None)), StagingAction::RemoveCopy));
    assert_eq!(finished(&s.step(StagingEvent::CopyRemoved)), Some(None));

    let (mut t, _) = CopyStaging::start(true);
    t.step(StagingEvent::DirCreated(true));
    t.step(StagingEvent::CopiesProbed { bundled: FileProbe::Missing, user: FileProbe::Modified(now), now });
    t.step(StagingEvent::VersionRead(Some("v1".to_string())));
    t.step(StagingEvent::MarkerProbed { marker: FileProbe::NoTime, now });
    t.step(StagingEvent::UpdateRan(true));
    assert!(matches!(t.step(StagingEvent::VersionRead(None)), StagingAction::RemoveCopy));
    assert!(matches!(t.step(StagingEvent::CopyRemoved), StagingAction::WriteMarker));
    assert_eq!(finished(&t.step(StagingEvent::MarkerWritten)), Some(None));
    assert_eq!(t.phase, StagingPhase::Done);
}

#[test]
fn every_update_is_recorded_so_the_next_run_within_a_week_skips_it() {
    let now = 100 * WEEK;
    for update_ok in [false, true] {
        for check_ok in [false, true] {
            let (mut s, _) = CopyStaging::start(true);
            s.step(StagingEvent::DirCreated(true));
            s.step(StagingEvent::CopiesProbed { bundled: FileProbe::Missing, user: FileProbe::Modified(now), now });
            s.step(StagingEvent::VersionRead(Some("v1".to_string())));
            assert!(matches!(s.step(StagingEvent::MarkerProbed { marker: FileProbe::Missing, now }), StagingAction::RunUpdate));
            let mut action = s.step(StagingEvent::UpdateRan(update_ok));
            let mut marker_written = false;
            loop {
                let event = match action {
                    StagingAction::ReadVersion => StagingEvent::VersionRead(if check_ok { Some("v2".to_string()) } else { None }),
                    StagingAction::RemoveCopy => StagingEvent::CopyRemoved,
                    StagingAction::WriteMarker => {
                        marker_written = true;
                        StagingEvent::MarkerWritten
                    }
                    StagingAction::StageDeno => StagingEvent::DenoStaged,
                    StagingAction::Finish(_) => break,
                    _ => panic!("unexpected action"),
                };
                action = s.step(event);
            }
            assert!(marker_written, "update {} check {}", update_ok, check_ok);
            // the next run, a day later, finds the marker written `now`
            let (mut next, _) = CopyStaging::start(true);
            next.step(StagingEvent::DirCreated(true));
            next.step(StagingEvent::CopiesProbed { bundled: FileProbe::Missing, user: FileProbe::Modified(now), now: now + DAY });
            next.step(StagingEvent::VersionRead(Some("v2".to_string())));
            let a = next.step(StagingEvent::MarkerProbed { marker: FileProbe::Modified(now), now: now + DAY });
            assert!(matches!(a, StagingAction::StageDeno));
        }
    }
}

#[test]
fn staging_failures_give_no_version() {
    let now = 100 * WEEK;
    let (mut s, _) = CopyStaging::start(true);
    assert_eq!(finished(&s.step(StagingEvent::DirCreated(false))), Some(None));
    let (mut t, _) = CopyStaging::start(true);
    t.step(StagingEvent::DirCreated(true));
    t.step(StagingEvent::CopiesProbed { bundled: FileProbe::Modified(1), user: FileProbe::Missing, now });
    assert_eq!(finished(&t.step(StagingEvent::Staged(false))), Some(None));
}

#[test]
fn unanswered_events_repeat_the_pending_action() {
    let (mut u, _) = CopyStaging::start(true);
    assert!(matches!(u.step(StagingEvent::MarkerWritten), StagingAction::CreateDir));
    assert_eq!(u.phase, StagingPhase::CreatingDir);
    u.step(StagingEvent::DirCreated(true));
    assert!(matches!(u.step(StagingEvent::DenoStaged), StagingAction::ProbeCopies));
}

#[test]
fn staging_takes_at_most_nine_steps() {
    let now = 100 * WEEK;
    let events = || {
        vec![
            StagingEvent::DirCreated(true),
            StagingEvent::CopiesProbed { bundled: FileProbe::Modified(1), user: FileProbe::Missing, now },
            StagingEvent::Staged(true),
            StagingEvent::VersionRead(Some("a".to_string())),
            StagingEvent::MarkerProbed { marker: FileProbe::Missing, now },
            StagingEvent::UpdateRan(true),
            StagingEvent::VersionRead(Some("b".to_string())),
            StagingEvent::MarkerWritten,
            StagingEvent::DenoStaged,
        ]
    };
    let (mut s, _) = CopyStaging::start(true);
    let mut steps = 0;
    for e in events() {
        if s.phase == StagingPhase::Done {
            break;
        }
        s.step(e);
        steps += 1;
    }
    assert_eq!(s.phase, StagingPhase::Done);
    assert_eq!(steps, 9);
}

#[test]
fn next_run_updates_again_only_after_a_week() {
    let written = 50 * WEEK;
    for (later, expect_update) in [(0, false), (WEEK, false), (WEEK + 1, true)] {
        let (mut s, _) = CopyStaging::start(true);
        s.step(StagingEvent::DirCreated(true));
        s.step(StagingEvent::CopiesProbed { bundled: FileProbe::Missing, user: FileProbe::Modified(written), now: written + later });
        s.step(StagingEvent::VersionRead(Some("v2".to_string())));
        let a = s.step(StagingEvent::MarkerProbed { marker: FileProbe::Modified(written), now: written + later });
        assert_eq!(matches!(a, StagingAction::RunUpdate), expect_update, "{later}");
    }
}
