//! Keeping a per-user copy of yt-dlp: staging it from the bundled binary,
//! checking that it runs, updating it at most once a week, and placing
//! Deno next to it.
//!
//! The file system and the processes are driven by the caller: each step
//! hands back the next action, and the caller reports how it went.
use vstd::prelude::*;
use crate::text::{opt_chars, owned};

verus! {

// ---------------------------------------------------------------------------
// File times
// ---------------------------------------------------------------------------
/// What the caller found out about a file's modification time. Times are
/// nanoseconds since the Unix epoch, negative before it.
#[derive(Clone, Copy, Debug, PartialEq, Eq, Structural)]
pub enum FileProbe {
    /// The file's metadata could not be read (most often: it does not exist).
    Missing,
    /// The metadata was read, but not the modification time.
    NoTime,
    /// The file was last modified at this time.
    Modified(i128),
}

/// Two weeks, in nanoseconds: a per-user copy older than this is replaced.
pub open spec fn stale_after() -> int {
    1_209_600_000_000_000
}

/// One week, in nanoseconds: the self-update runs at most this often.
pub open spec fn update_interval() -> int {
    604_800_000_000_000
}

/// A file counts as older than `limit` at time `now` unless its
/// modification time is known, not in the future, and at most `limit` ago.
pub open spec fn older_than_spec(probe: FileProbe, now: i128, limit: int) -> bool {
    match probe {
        FileProbe::Modified(m) => now < m || now - m > limit,
        _ => true,
    }
}

/// The bundled binary should replace the per-user copy: it exists, and
/// either the copy does not, or one of the two times is unknown, or the
/// bundled binary was modified later.
pub open spec fn bundled_newer_spec(bundled: FileProbe, user: FileProbe) -> bool {
    match bundled {
        FileProbe::Missing => false,
        FileProbe::NoTime => true,
        FileProbe::Modified(b) => match user {
            FileProbe::Modified(u) => b > u,
            _ => true,
        },
    }
}

/// Whether a file probed as `probe` is older than `limit` nanoseconds at `now`.
pub fn older_than(probe: FileProbe, now: i128, limit: i128) -> (r: bool)
    requires
        limit >= 0,
    ensures
        r == older_than_spec(probe, now, limit as int),
{
    match probe {
        FileProbe::Modified(m) => {
            if now < m {
                true
            } else {
                // now >= m; the difference may exceed i128 only when it is huge
                let diff: i128 = match now.checked_sub(m) {
                    Some(d) => d,
                    None => {
                        return true;
                    },
                };
                diff > limit
            }
        },
        _ => true,
    }
}

/// Whether the bundled binary should replace the per-user copy.
pub fn bundled_newer(bundled: FileProbe, user: FileProbe) -> (r: bool)
    ensures
        r == bundled_newer_spec(bundled, user),
{
    match bundled {
        FileProbe::Missing => false,
        FileProbe::NoTime => true,
        FileProbe::Modified(b) => match user {
            FileProbe::Modified(u) => b > u,
            _ => true,
        },
    }
}

/// A file counts as older than a limit unless its modification time is
/// known and lies between `now - limit` and `now`; the bundled binary is
/// newer than the per-user copy when it exists and the copy does not, when
/// either time is unknown, or when it was modified strictly later.
pub proof fn law_file_ages(m: i128, u: i128, now: i128, limit: int)
    ensures
        older_than_spec(FileProbe::Missing, now, limit),
        older_than_spec(FileProbe::NoTime, now, limit),
        older_than_spec(FileProbe::Modified(m), now, limit) <==> !(m <= now && now - m <= limit),
        !bundled_newer_spec(FileProbe::Missing, FileProbe::Modified(u)),
        !bundled_newer_spec(FileProbe::Missing, FileProbe::Missing),
        bundled_newer_spec(FileProbe::Modified(m), FileProbe::Missing),
        bundled_newer_spec(FileProbe::NoTime, FileProbe::Modified(u)),
        bundled_newer_spec(FileProbe::Modified(m), FileProbe::NoTime),
        bundled_newer_spec(FileProbe::Modified(m), FileProbe::Modified(u)) <==> m > u,
{
}

// ---------------------------------------------------------------------------
// Replacing a file through a temporary copy
// ---------------------------------------------------------------------------
/// Where the replacement of one file stands.
#[derive(Clone, Copy, Debug, PartialEq, Eq, Structural)]
pub enum ReplacePhase {
    /// The source is being copied to the temporary file.
    Copying,
    /// The temporary file is being made executable.
    SettingMode,
    /// The temporary file is being renamed over the target.
    Renaming,
    /// The target is being removed so that the rename can be tried again.
    RemovingTarget,
    /// The rename is being tried a second time.
    RenamingAgain,
    /// The temporary file is being removed after a failure.
    RemovingTemp,
    /// Nothing more to do.
    Done,
}

/// What the caller does next while replacing a file.
#[derive(Clone, Copy, Debug, PartialEq, Eq, Structural)]
pub enum ReplaceAction {
    CopyToTemp,
    /// Make the temporary file executable (mode 755).
    SetMode,
    RenameTempOverTarget,
    RemoveTarget,
    RemoveTemp,
    /// The replacement is over; whether the target now holds the copy.
    Finish(bool),
}

/// How an action of the replacement went.
#[derive(Clone, Copy, Debug, PartialEq, Eq, Structural)]
pub enum ReplaceEvent {
    Copied(bool),
    ModeSet,
    /// The rename succeeded, or failed with an error that says the target
    /// exists (`AlreadyExists`, or the Windows code 80).
    Renamed { ok: bool, target_exists: bool },
    TargetRemoved,
    TempRemoved,
}

/// The replacement: copy to a temporary file, make it executable except
/// on Windows, rename it over the target; when the rename fails because the
/// target exists, remove the target and rename once more; after a failure,
/// remove the temporary file. An event that does not answer the pending
/// action ends the replacement as failed.
pub open spec fn replace_step_spec(
    phase: ReplacePhase,
    unix: bool,
    event: ReplaceEvent,
) -> (ReplacePhase, ReplaceAction) {
    match (phase, event) {
        (ReplacePhase::Copying, ReplaceEvent::Copied(ok)) => if !ok {
            (ReplacePhase::Done, ReplaceAction::Finish(false))
        } else if unix {
            (ReplacePhase::SettingMode, ReplaceAction::SetMode)
        } else {
            (ReplacePhase::Renaming, ReplaceAction::RenameTempOverTarget)
        },
        (ReplacePhase::SettingMode, ReplaceEvent::ModeSet) => (
            ReplacePhase::Renaming,
            ReplaceAction::RenameTempOverTarget,
        ),
        (ReplacePhase::Renaming, ReplaceEvent::Renamed { ok, target_exists }) => if ok {
            (ReplacePhase::Done, ReplaceAction::Finish(true))
        } else if target_exists {
            (ReplacePhase::RemovingTarget, ReplaceAction::RemoveTarget)
        } else {
            (ReplacePhase::RemovingTemp, ReplaceAction::RemoveTemp)
        },
        (ReplacePhase::RemovingTarget, ReplaceEvent::TargetRemoved) => (
            ReplacePhase::RenamingAgain,
            ReplaceAction::RenameTempOverTarget,
        ),
        (ReplacePhase::RenamingAgain, ReplaceEvent::Renamed { ok, target_exists }) => if ok {
            (ReplacePhase::Done, ReplaceAction::Finish(true))
        } else {
            (ReplacePhase::RemovingTemp, ReplaceAction::RemoveTemp)
        },
        (ReplacePhase::RemovingTemp, ReplaceEvent::TempRemoved) => (
            ReplacePhase::Done,
            ReplaceAction::Finish(false),
        ),
        _ => (ReplacePhase::Done, ReplaceAction::Finish(false)),
    }
}

/// The replacement of one file by a copy of another.
pub struct FileReplacement {
    pub phase: ReplacePhase,
    /// Whether the platform has Unix file modes.
    pub unix: bool,
}

impl FileReplacement {
    /// Starts a replacement: the first action is the copy.
    pub fn start(unix: bool) -> (r: (FileReplacement, ReplaceAction))
        ensures
            r.0.phase == ReplacePhase::Copying,
            r.0.unix == unix,
            r.1 == ReplaceAction::CopyToTemp,
    {
        (FileReplacement { phase: ReplacePhase::Copying, unix }, ReplaceAction::CopyToTemp)
    }

    /// Takes how the pending action went and gives the next one.
    pub fn step(&mut self, event: ReplaceEvent) -> (r: ReplaceAction)
        ensures
            final(self).unix == old(self).unix,
            (final(self).phase, r) == replace_step_spec(old(self).phase, old(self).unix, event),
    {
        let (phase, action) = match (self.phase, event) {
            (ReplacePhase::Copying, ReplaceEvent::Copied(ok)) => if !ok {
                (ReplacePhase::Done, ReplaceAction::Finish(false))
            } else if self.unix {
                (ReplacePhase::SettingMode, ReplaceAction::SetMode)
            } else {
                (ReplacePhase::Renaming, ReplaceAction::RenameTempOverTarget)
            },
            (ReplacePhase::SettingMode, ReplaceEvent::ModeSet) => (
                ReplacePhase::Renaming,
                ReplaceAction::RenameTempOverTarget,
            ),
            (ReplacePhase::Renaming, ReplaceEvent::Renamed { ok, target_exists }) => if ok {
                (ReplacePhase::Done, ReplaceAction::Finish(true))
            } else if target_exists {
                (ReplacePhase::RemovingTarget, ReplaceAction::RemoveTarget)
            } else {
                (ReplacePhase::RemovingTemp, ReplaceAction::RemoveTemp)
            },
            (ReplacePhase::RemovingTarget, ReplaceEvent::TargetRemoved) => (
                ReplacePhase::RenamingAgain,
                ReplaceAction::RenameTempOverTarget,
            ),
            (ReplacePhase::RenamingAgain, ReplaceEvent::Renamed { ok, target_exists: _ }) => if ok {
                (ReplacePhase::Done, ReplaceAction::Finish(true))
            } else {
                (ReplacePhase::RemovingTemp, ReplaceAction::RemoveTemp)
            },
            (ReplacePhase::RemovingTemp, ReplaceEvent::TempRemoved) => (
                ReplacePhase::Done,
                ReplaceAction::Finish(false),
            ),
            _ => (ReplacePhase::Done, ReplaceAction::Finish(false)),
        };
        self.phase = phase;
        action
    }
}

/// Whether a failed rename says that the target exists.
pub fn rename_blocked_by_target(already_exists: bool, raw_os_error: Option<i32>) -> (r: bool)
    ensures
        r == (already_exists || raw_os_error == Some(80i32)),
{
    already_exists || match raw_os_error {
        Some(c) => c == 80,
        None => false,
    }
}

/// The replacement reports success only right after a rename succeeded,
/// and it never removes the target except to retry a rename that the
/// target blocked.
pub proof fn law_replace_success_needs_rename(phase: ReplacePhase, unix: bool, event: ReplaceEvent)
    ensures
        replace_step_spec(phase, unix, event).1 == ReplaceAction::Finish(true) ==> (event matches ReplaceEvent::Renamed { ok, .. } && ok),
        replace_step_spec(phase, unix, event).1 == ReplaceAction::RemoveTarget ==> phase
            == ReplacePhase::Renaming && (event matches ReplaceEvent::Renamed {
            ok,
            target_exists,
        } && !ok && target_exists),
{
}

/// A rename that succeeds, first time or after the target was removed,
/// finishes the replacement with the copy in place.
pub proof fn law_rename_success_finishes(unix: bool, target_exists: bool)
    ensures
        replace_step_spec(ReplacePhase::Renaming, unix, ReplaceEvent::Renamed { ok: true, target_exists })
            == (ReplacePhase::Done, ReplaceAction::Finish(true)),
        replace_step_spec(
            ReplacePhase::RenamingAgain,
            unix,
            ReplaceEvent::Renamed { ok: true, target_exists },
        ) == (ReplacePhase::Done, ReplaceAction::Finish(true)),
{
}

/// The course of a replacement: a failed copy ends it as failed; a good
/// copy is made executable on Unix and then renamed over the target; a
/// rename that the existing target blocks removes the target and renames
/// once more; any other failed rename, and a failed second rename, removes
/// the temporary file, after which the replacement ends as failed.
pub proof fn law_replace_course(unix: bool, target_exists: bool)
    ensures
        replace_step_spec(ReplacePhase::Copying, unix, ReplaceEvent::Copied(false)).1
            == ReplaceAction::Finish(false),
        replace_step_spec(ReplacePhase::Copying, unix, ReplaceEvent::Copied(true)).1 == (if unix {
            ReplaceAction::SetMode
        } else {
            ReplaceAction::RenameTempOverTarget
        }),
        replace_step_spec(ReplacePhase::SettingMode, unix, ReplaceEvent::ModeSet)
            == (ReplacePhase::Renaming, ReplaceAction::RenameTempOverTarget),
        replace_step_spec(
            ReplacePhase::Renaming,
            unix,
            ReplaceEvent::Renamed { ok: false, target_exists },
        ).1 == (if target_exists {
            ReplaceAction::RemoveTarget
        } else {
            ReplaceAction::RemoveTemp
        }),
        replace_step_spec(ReplacePhase::RemovingTarget, unix, ReplaceEvent::TargetRemoved)
            == (ReplacePhase::RenamingAgain, ReplaceAction::RenameTempOverTarget),
        replace_step_spec(
            ReplacePhase::RenamingAgain,
            unix,
            ReplaceEvent::Renamed { ok: false, target_exists },
        ) == (ReplacePhase::RemovingTemp, ReplaceAction::RemoveTemp),
        replace_step_spec(ReplacePhase::RemovingTemp, unix, ReplaceEvent::TempRemoved)
            == (ReplacePhase::Done, ReplaceAction::Finish(false)),
{
}

// ---------------------------------------------------------------------------
// The per-user copy of yt-dlp
// ---------------------------------------------------------------------------
/// Where keeping the per-user copy stands.
#[derive(Clone, Copy, Debug, PartialEq, Eq, Structural)]
pub enum StagingPhase {
    /// The per-user directory is being created.
    CreatingDir,
    /// The bundled binary and the per-user copy are being examined.
    ProbingCopies,
    /// The bundled binary is being copied over the per-user copy.
    Staging,
    /// The per-user copy is asked for its version.
    ReadingVersion,
    /// The marker of the last update check is being examined.
    ProbingMarker,
    /// The per-user copy is updating itself.
    Updating,
    /// The updated copy is asked for its version.
    ReadingUpdatedVersion,
    /// The marker of the last update check is being written.
    WritingMarker,
    /// A copy that does not run is being removed.
    RemovingBroken,
    /// An updated copy that does not run is being removed.
    RemovingUpdated,
    /// The update check is being recorded after an updated copy was removed.
    RecordingFailedUpdate,
    /// Deno is being placed next to the per-user copy.
    StagingDeno,
    /// Nothing more to do.
    Done,
}

/// What the caller does next while keeping the per-user copy.
pub enum StagingAction {
    CreateDir,
    /// Probe the bundled binary and the per-user copy, and read the clock.
    ProbeCopies,
    /// Replace the per-user copy by the bundled binary.
    StageBundled,
    /// Run the per-user copy with `--version`.
    ReadVersion,
    /// Probe the update marker and read the clock.
    ProbeMarker,
    /// Run the per-user copy with `-U`, for at most two minutes.
    RunUpdate,
    /// Write the (empty) update marker.
    WriteMarker,
    /// Remove the per-user copy.
    RemoveCopy,
    /// Copy the bundled Deno next to the per-user copy unless one is there.
    StageDeno,
    /// Done: the version of the per-user copy, or nothing when it is unusable.
    Finish(Option<String>),
}

/// The mathematical content of a [`StagingAction`].
pub enum StagingActionView {
    CreateDir,
    ProbeCopies,
    StageBundled,
    ReadVersion,
    ProbeMarker,
    RunUpdate,
    WriteMarker,
    RemoveCopy,
    StageDeno,
    Finish(Option<Seq<char>>),
}

impl View for StagingAction {
    type V = StagingActionView;

    open spec fn view(&self) -> StagingActionView {
        match self {
            StagingAction::CreateDir => StagingActionView::CreateDir,
            StagingAction::ProbeCopies => StagingActionView::ProbeCopies,
            StagingAction::StageBundled => StagingActionView::StageBundled,
            StagingAction::ReadVersion => StagingActionView::ReadVersion,
            StagingAction::ProbeMarker => StagingActionView::ProbeMarker,
            StagingAction::RunUpdate => StagingActionView::RunUpdate,
            StagingAction::WriteMarker => StagingActionView::WriteMarker,
            StagingAction::RemoveCopy => StagingActionView::RemoveCopy,
            StagingAction::StageDeno => StagingActionView::StageDeno,
            StagingAction::Finish(v) => StagingActionView::Finish(opt_chars(*v)),
        }
    }
}

/// How an action of the staging went.
pub enum StagingEvent {
    DirCreated(bool),
    CopiesProbed { bundled: FileProbe, user: FileProbe, now: i128 },
    Staged(bool),
    /// The version the copy printed (trimmed), or nothing when it did not run.
    VersionRead(Option<String>),
    MarkerProbed { marker: FileProbe, now: i128 },
    /// Whether the update finished in time and exited with success.
    UpdateRan(bool),
    MarkerWritten,
    CopyRemoved,
    DenoStaged,
}

/// The mathematical content of a [`StagingEvent`].
pub enum StagingEventView {
    DirCreated(bool),
    CopiesProbed { bundled: FileProbe, user: FileProbe, now: i128 },
    Staged(bool),
    VersionRead(Option<Seq<char>>),
    MarkerProbed { marker: FileProbe, now: i128 },
    UpdateRan(bool),
    MarkerWritten,
    CopyRemoved,
    DenoStaged,
}

impl View for StagingEvent {
    type V = StagingEventView;

    open spec fn view(&self) -> StagingEventView {
        match self {
            StagingEvent::DirCreated(b) => StagingEventView::DirCreated(*b),
            StagingEvent::CopiesProbed { bundled, user, now } => StagingEventView::CopiesProbed {
                bundled: *bundled,
                user: *user,
                now: *now,
            },
            StagingEvent::Staged(b) => StagingEventView::Staged(*b),
            StagingEvent::VersionRead(v) => StagingEventView::VersionRead(opt_chars(*v)),
            StagingEvent::MarkerProbed { marker, now } => StagingEventView::MarkerProbed {
                marker: *marker,
                now: *now,
            },
            StagingEvent::UpdateRan(b) => StagingEventView::UpdateRan(*b),
            StagingEvent::MarkerWritten => StagingEventView::MarkerWritten,
            StagingEvent::CopyRemoved => StagingEventView::CopyRemoved,
            StagingEvent::DenoStaged => StagingEventView::DenoStaged,
        }
    }
}

/// The staging: create the per-user directory; replace the copy by the
/// bundled binary when the copy is stale (two weeks) or the bundled binary
/// is newer; check that the copy runs, removing it when it does not; when
/// the last update check is a week old (or unknown, or in the future) run
/// the self-update, check the copy again if the update succeeded, and
/// record the check, also when the updated copy fails the check and is
/// removed; place Deno; finish with the version. Any failure to create the
/// directory or to stage ends with no version. An event that does not
/// answer the pending action changes nothing and the action is asked again.
pub open spec fn staging_step_spec(
    phase: StagingPhase,
    version: Option<Seq<char>>,
    event: StagingEventView,
) -> (StagingPhase, Option<Seq<char>>, StagingActionView) {
    match (phase, event) {
        (StagingPhase::CreatingDir, StagingEventView::DirCreated(ok)) => if ok {
            (StagingPhase::ProbingCopies, version, StagingActionView::ProbeCopies)
        } else {
            (StagingPhase::Done, None, StagingActionView::Finish(None))
        },
        (StagingPhase::ProbingCopies, StagingEventView::CopiesProbed { bundled, user, now }) => if older_than_spec(user, now, stale_after())
            || bundled_newer_spec(bundled, user) {
            (StagingPhase::Staging, version, StagingActionView::StageBundled)
        } else {
            (StagingPhase::ReadingVersion, version, StagingActionView::ReadVersion)
        },
        (StagingPhase::Staging, StagingEventView::Staged(ok)) => if ok {
            (StagingPhase::ReadingVersion, version, StagingActionView::ReadVersion)
        } else {
            (StagingPhase::Done, None, StagingActionView::Finish(None))
        },
        (StagingPhase::ReadingVersion, StagingEventView::VersionRead(v)) => match v {
            Some(s) => (StagingPhase::ProbingMarker, Some(s), StagingActionView::ProbeMarker),
            None => (StagingPhase::RemovingBroken, None, StagingActionView::RemoveCopy),
        },
        (StagingPhase::ProbingMarker, StagingEventView::MarkerProbed { marker, now }) => if older_than_spec(marker, now, update_interval()) {
            (StagingPhase::Updating, version, StagingActionView::RunUpdate)
        } else {
            (StagingPhase::StagingDeno, version, StagingActionView::StageDeno)
        },
        (StagingPhase::Updating, StagingEventView::UpdateRan(ok)) => if ok {
            (StagingPhase::ReadingUpdatedVersion, version, StagingActionView::ReadVersion)
        } else {
            (StagingPhase::WritingMarker, version, StagingActionView::WriteMarker)
        },
        (StagingPhase::ReadingUpdatedVersion, StagingEventView::VersionRead(v)) => match v {
            Some(s) => (StagingPhase::WritingMarker, Some(s), StagingActionView::WriteMarker),
            None => (StagingPhase::RemovingUpdated, None, StagingActionView::RemoveCopy),
        },
        (StagingPhase::RemovingUpdated, StagingEventView::CopyRemoved) => (
            StagingPhase::RecordingFailedUpdate,
            None,
            StagingActionView::WriteMarker,
        ),
        (StagingPhase::RecordingFailedUpdate, StagingEventView::MarkerWritten) => (
            StagingPhase::Done,
            None,
            StagingActionView::Finish(None),
        ),
        (StagingPhase::WritingMarker, StagingEventView::MarkerWritten) => (
            StagingPhase::StagingDeno,
            version,
            StagingActionView::StageDeno,
        ),
        (StagingPhase::RemovingBroken, StagingEventView::CopyRemoved) => (
            StagingPhase::Done,
            None,
            StagingActionView::Finish(None),
        ),
        (StagingPhase::StagingDeno, StagingEventView::DenoStaged) => (
            StagingPhase::Done,
            version,
            StagingActionView::Finish(version),
        ),
        _ => (phase, version, pending_action_spec(phase, version)),
    }
}

/// The action that a phase waits for.
pub open spec fn pending_action_spec(phase: StagingPhase, version: Option<Seq<char>>) -> StagingActionView {
    match phase {
        StagingPhase::CreatingDir => StagingActionView::CreateDir,
        StagingPhase::ProbingCopies => StagingActionView::ProbeCopies,
        StagingPhase::Staging => StagingActionView::StageBundled,
        StagingPhase::ReadingVersion => StagingActionView::ReadVersion,
        StagingPhase::ProbingMarker => StagingActionView::ProbeMarker,
        StagingPhase::Updating => StagingActionView::RunUpdate,
        StagingPhase::ReadingUpdatedVersion => StagingActionView::ReadVersion,
        StagingPhase::WritingMarker => StagingActionView::WriteMarker,
        StagingPhase::RemovingBroken => StagingActionView::RemoveCopy,
        StagingPhase::RemovingUpdated => StagingActionView::RemoveCopy,
        StagingPhase::RecordingFailedUpdate => StagingActionView::WriteMarker,
        StagingPhase::StagingDeno => StagingActionView::StageDeno,
        StagingPhase::Done => StagingActionView::Finish(version),
    }
}

/// Keeping the per-user copy of yt-dlp up to date.
pub struct CopyStaging {
    pub phase: StagingPhase,
    /// The version the copy last reported.
    pub version: Option<String>,
}

impl CopyStaging {
    /// Starts the staging; without a per-user path there is nothing to do.
    pub fn start(has_user_path: bool) -> (r: (CopyStaging, StagingAction))
        ensures
            has_user_path ==> r.0.phase == StagingPhase::CreatingDir && r.1@
                == StagingActionView::CreateDir,
            !has_user_path ==> r.0.phase == StagingPhase::Done && r.1@ == StagingActionView::Finish(
                None,
            ),
            r.0.version is None,
    {
        if has_user_path {
            (CopyStaging { phase: StagingPhase::CreatingDir, version: None }, StagingAction::CreateDir)
        } else {
            (CopyStaging { phase: StagingPhase::Done, version: None }, StagingAction::Finish(None))
        }
    }

    /// Takes how the pending action went and gives the next one.
    pub fn step(&mut self, event: StagingEvent) -> (r: StagingAction)
        ensures
            (final(self).phase, opt_chars(final(self).version), r@) == staging_step_spec(
                old(self).phase,
                opt_chars(old(self).version),
                event@,
            ),
    {
        let stale_limit: i128 = 1_209_600_000_000_000;
        let update_limit: i128 = 604_800_000_000_000;
        match (self.phase, event) {
            (StagingPhase::CreatingDir, StagingEvent::DirCreated(ok)) => if ok {
                self.phase = StagingPhase::ProbingCopies;
                StagingAction::ProbeCopies
            } else {
                self.finish_empty()
            },
            (StagingPhase::ProbingCopies, StagingEvent::CopiesProbed { bundled, user, now }) => {
                if older_than(user, now, stale_limit) || bundled_newer(bundled, user) {
                    self.phase = StagingPhase::Staging;
                    StagingAction::StageBundled
                } else {
                    self.phase = StagingPhase::ReadingVersion;
                    StagingAction::ReadVersion
                }
            },
            (StagingPhase::Staging, StagingEvent::Staged(ok)) => if ok {
                self.phase = StagingPhase::ReadingVersion;
                StagingAction::ReadVersion
            } else {
                self.finish_empty()
            },
            (StagingPhase::ReadingVersion, StagingEvent::VersionRead(v)) => match v {
                Some(s) => {
                    self.phase = StagingPhase::ProbingMarker;
                    self.version = Some(s);
                    StagingAction::ProbeMarker
                },
                None => {
                    self.phase = StagingPhase::RemovingBroken;
                    self.version = None;
                    StagingAction::RemoveCopy
                },
            },
            (StagingPhase::ProbingMarker, StagingEvent::MarkerProbed { marker, now }) => {
                if older_than(marker, now, update_limit) {
                    self.phase = StagingPhase::Updating;
                    StagingAction::RunUpdate
                } else {
                    self.phase = StagingPhase::StagingDeno;
                    StagingAction::StageDeno
                }
            },
            (StagingPhase::Updating, StagingEvent::UpdateRan(ok)) => if ok {
                self.phase = StagingPhase::ReadingUpdatedVersion;
                StagingAction::ReadVersion
            } else {
                self.phase = StagingPhase::WritingMarker;
                StagingAction::WriteMarker
            },
            (StagingPhase::ReadingUpdatedVersion, StagingEvent::VersionRead(v)) => match v {
                Some(s) => {
                    self.phase = StagingPhase::WritingMarker;
                    self.version = Some(s);
                    StagingAction::WriteMarker
                },
                None => {
                    self.phase = StagingPhase::RemovingUpdated;
                    self.version = None;
                    StagingAction::RemoveCopy
                },
            },
            (StagingPhase::RemovingUpdated, StagingEvent::CopyRemoved) => {
                self.phase = StagingPhase::RecordingFailedUpdate;
                self.version = None;
                StagingAction::WriteMarker
            },
            (StagingPhase::RecordingFailedUpdate, StagingEvent::MarkerWritten) => self.finish_empty(),
            (StagingPhase::WritingMarker, StagingEvent::MarkerWritten) => {
                self.phase = StagingPhase::StagingDeno;
                StagingAction::StageDeno
            },
            (StagingPhase::RemovingBroken, StagingEvent::CopyRemoved) => self.finish_empty(),
            (StagingPhase::StagingDeno, StagingEvent::DenoStaged) => {
                self.phase = StagingPhase::Done;
                let result = match &self.version {
                    Some(s) => Some(owned(s.as_str())),
                    None => None,
                };
                StagingAction::Finish(result)
            },
            _ => self.pending_action(),
        }
    }

    /// The action the current phase waits for.
    fn pending_action(&self) -> (r: StagingAction)
        ensures
            r@ == pending_action_spec(self.phase, opt_chars(self.version)),
    {
        match self.phase {
            StagingPhase::CreatingDir => StagingAction::CreateDir,
            StagingPhase::ProbingCopies => StagingAction::ProbeCopies,
            StagingPhase::Staging => StagingAction::StageBundled,
            StagingPhase::ReadingVersion => StagingAction::ReadVersion,
            StagingPhase::ProbingMarker => StagingAction::ProbeMarker,
            StagingPhase::Updating => StagingAction::RunUpdate,
            StagingPhase::ReadingUpdatedVersion => StagingAction::ReadVersion,
            StagingPhase::WritingMarker => StagingAction::WriteMarker,
            StagingPhase::RemovingBroken => StagingAction::RemoveCopy,
            StagingPhase::RemovingUpdated => StagingAction::RemoveCopy,
            StagingPhase::RecordingFailedUpdate => StagingAction::WriteMarker,
            StagingPhase::StagingDeno => StagingAction::StageDeno,
            StagingPhase::Done => {
                let result = match &self.version {
                    Some(s) => Some(owned(s.as_str())),
                    None => None,
                };
                StagingAction::Finish(result)
            },
        }
    }

    fn finish_empty(&mut self) -> (r: StagingAction)
        ensures
            final(self).phase == StagingPhase::Done,
            final(self).version is None,
            r@ == StagingActionView::Finish(None),
    {
        self.phase = StagingPhase::Done;
        self.version = None;
        StagingAction::Finish(None)
    }
}

/// How far a staging phase is from the end.
pub open spec fn staging_rank(phase: StagingPhase) -> nat {
    match phase {
        StagingPhase::CreatingDir => 11,
        StagingPhase::ProbingCopies => 10,
        StagingPhase::Staging => 9,
        StagingPhase::ReadingVersion => 8,
        StagingPhase::ProbingMarker => 7,
        StagingPhase::Updating => 6,
        StagingPhase::ReadingUpdatedVersion => 5,
        StagingPhase::RemovingUpdated => 4,
        StagingPhase::WritingMarker => 3,
        StagingPhase::RecordingFailedUpdate => 3,
        StagingPhase::RemovingBroken => 1,
        StagingPhase::StagingDeno => 1,
        StagingPhase::Done => 0,
    }
}

/// The event answers the action that the phase waits for.
pub open spec fn answers(phase: StagingPhase, event: StagingEventView) -> bool {
    match (phase, event) {
        (StagingPhase::CreatingDir, StagingEventView::DirCreated(_)) => true,
        (StagingPhase::ProbingCopies, StagingEventView::CopiesProbed { .. }) => true,
        (StagingPhase::Staging, StagingEventView::Staged(_)) => true,
        (StagingPhase::ReadingVersion, StagingEventView::VersionRead(_)) => true,
        (StagingPhase::ProbingMarker, StagingEventView::MarkerProbed { .. }) => true,
        (StagingPhase::Updating, StagingEventView::UpdateRan(_)) => true,
        (StagingPhase::ReadingUpdatedVersion, StagingEventView::VersionRead(_)) => true,
        (StagingPhase::WritingMarker, StagingEventView::MarkerWritten) => true,
        (StagingPhase::RemovingBroken, StagingEventView::CopyRemoved) => true,
        (StagingPhase::RemovingUpdated, StagingEventView::CopyRemoved) => true,
        (StagingPhase::RecordingFailedUpdate, StagingEventView::MarkerWritten) => true,
        (StagingPhase::StagingDeno, StagingEventView::DenoStaged) => true,
        _ => false,
    }
}

/// The staging always ends: every answered step from an unfinished phase
/// moves strictly closer to the end (so at most eleven steps are taken),
/// and an event that answers nothing leaves everything as it was and asks
/// for the same action again.
pub proof fn law_staging_terminates(
    phase: StagingPhase,
    version: Option<Seq<char>>,
    event: StagingEventView,
)
    ensures
        phase != StagingPhase::Done && answers(phase, event) ==> staging_rank(
            staging_step_spec(phase, version, event).0,
        ) < staging_rank(phase),
        !answers(phase, event) ==> staging_step_spec(phase, version, event) == (
            phase,
            version,
            pending_action_spec(phase, version),
        ),
{
}

/// The phases between starting the self-update and recording the update
/// check: the marker is owed.
pub open spec fn marker_owed(phase: StagingPhase) -> bool {
    ||| phase == StagingPhase::Updating
    ||| phase == StagingPhase::ReadingUpdatedVersion
    ||| phase == StagingPhase::RemovingUpdated
    ||| phase == StagingPhase::WritingMarker
    ||| phase == StagingPhase::RecordingFailedUpdate
}

/// The self-update is started only when the update marker is missing,
/// unreadable, in the future, or more than a week old (or when the start
/// is asked again because the pending update was not answered).
pub proof fn law_update_only_when_due(
    phase: StagingPhase,
    version: Option<Seq<char>>,
    event: StagingEventView,
)
    ensures
        staging_step_spec(phase, version, event).2 is RunUpdate ==> phase == StagingPhase::Updating
            || (phase == StagingPhase::ProbingMarker && (event matches StagingEventView::MarkerProbed {
            marker,
            now,
        } && older_than_spec(marker, now, update_interval()))),
{
}

/// Every run that starts the self-update records the update check before
/// it finishes, whatever the update and the following version check give:
/// starting the update enters a phase that owes the marker, and such a
/// phase is left only on the answer that the marker was written. Finished
/// runs owe nothing.
pub proof fn law_update_records_check(
    phase: StagingPhase,
    version: Option<Seq<char>>,
    event: StagingEventView,
)
    ensures
        staging_step_spec(phase, version, event).2 is RunUpdate ==> marker_owed(
            staging_step_spec(phase, version, event).0,
        ),
        marker_owed(phase) && !marker_owed(staging_step_spec(phase, version, event).0) ==> event
            == StagingEventView::MarkerWritten,
        !marker_owed(StagingPhase::Done),
{
}

/// No self-update starts while the recorded update check is at most a
/// week old. With [`law_update_records_check`], a run that updated leaves a
/// marker dated when it was written, so no later run starts another update
/// within the week that follows (as long as the marker is kept).
pub proof fn law_no_update_within_a_week(version: Option<Seq<char>>, marked: i128, now: i128)
    requires
        marked <= now,
        now - marked <= update_interval(),
    ensures
        !(staging_step_spec(
            StagingPhase::ProbingMarker,
            version,
            StagingEventView::MarkerProbed { marker: FileProbe::Modified(marked), now },
        ).2 is RunUpdate),
{
}

/// The course of the staging, answer by answer: a created directory leads
/// to probing the copies, a failure to create it or to stage ends with no
/// version; a staged copy, like a kept one, is asked for its version; a
/// copy that reports a version goes on to the marker with that version,
/// one that reports none is removed and the staging ends with none; a due
/// update runs, a recent marker skips to Deno; a successful update is
/// checked again, a failed one still records the check and keeps the
/// version; an updated copy that reports a version records the check with
/// the new version, one that reports none is removed, the check recorded,
/// and the staging ends with none; once the check is recorded Deno is
/// placed; and the staging ends with the version it holds.
pub proof fn law_staging_course(version: Option<Seq<char>>, v: Seq<char>, marker: FileProbe, now: i128)
    ensures
        staging_step_spec(StagingPhase::CreatingDir, version, StagingEventView::DirCreated(true)).2
            == StagingActionView::ProbeCopies,
        staging_step_spec(StagingPhase::CreatingDir, version, StagingEventView::DirCreated(false)).2
            == StagingActionView::Finish(None),
        staging_step_spec(StagingPhase::Staging, version, StagingEventView::Staged(true)).2
            == StagingActionView::ReadVersion,
        staging_step_spec(StagingPhase::Staging, version, StagingEventView::Staged(false)).2
            == StagingActionView::Finish(None),
        staging_step_spec(StagingPhase::ReadingVersion, version, StagingEventView::VersionRead(Some(v)))
            == (StagingPhase::ProbingMarker, Some(v), StagingActionView::ProbeMarker),
        staging_step_spec(StagingPhase::ReadingVersion, version, StagingEventView::VersionRead(None)).2
            == StagingActionView::RemoveCopy,
        staging_step_spec(StagingPhase::RemovingBroken, version, StagingEventView::CopyRemoved).2
            == StagingActionView::Finish(None),
        staging_step_spec(
            StagingPhase::ProbingMarker,
            version,
            StagingEventView::MarkerProbed { marker, now },
        ).2 == (if older_than_spec(marker, now, update_interval()) {
            StagingActionView::RunUpdate
        } else {
            StagingActionView::StageDeno
        }),
        staging_step_spec(StagingPhase::Updating, version, StagingEventView::UpdateRan(true)).2
            == StagingActionView::ReadVersion,
        staging_step_spec(StagingPhase::Updating, version, StagingEventView::UpdateRan(false))
            == (StagingPhase::WritingMarker, version, StagingActionView::WriteMarker),
        staging_step_spec(
            StagingPhase::ReadingUpdatedVersion,
            version,
            StagingEventView::VersionRead(Some(v)),
        ) == (StagingPhase::WritingMarker, Some(v), StagingActionView::WriteMarker),
        staging_step_spec(
            StagingPhase::ReadingUpdatedVersion,
            version,
            StagingEventView::VersionRead(None),
        ).2 == StagingActionView::RemoveCopy,
        staging_step_spec(StagingPhase::RemovingUpdated, version, StagingEventView::CopyRemoved).2
            == StagingActionView::WriteMarker,
        staging_step_spec(StagingPhase::RecordingFailedUpdate, version, StagingEventView::MarkerWritten).2
            == StagingActionView::Finish(None),
        staging_step_spec(StagingPhase::WritingMarker, version, StagingEventView::MarkerWritten)
            == (StagingPhase::StagingDeno, version, StagingActionView::StageDeno),
        staging_step_spec(StagingPhase::StagingDeno, version, StagingEventView::DenoStaged)
            == (StagingPhase::Done, version, StagingActionView::Finish(version)),
{
}

/// The phase and version reached, and the actions asked for one after the
/// other, when `events` are answered in order from `phase` with `version`.
pub open spec fn staging_run(
    phase: StagingPhase,
    version: Option<Seq<char>>,
    events: Seq<StagingEventView>,
) -> (StagingPhase, Option<Seq<char>>, Seq<StagingActionView>)
    decreases events.len(),
{
    if events.len() == 0 {
        (phase, version, Seq::empty())
    } else {
        let (p, v, a) = staging_step_spec(phase, version, events[0]);
        let (q, w, rest) = staging_run(p, v, events.drop_first());
        (q, w, seq![a] + rest)
    }
}

/// A run asks for one action per event.
proof fn lemma_run_actions(phase: StagingPhase, version: Option<Seq<char>>, events: Seq<StagingEventView>)
    ensures
        staging_run(phase, version, events).2.len() == events.len(),
        events.len() > 0 ==> ({
            let (p, v, a) = staging_step_spec(phase, version, events[0]);
            &&& staging_run(phase, version, events).2[0] == a
            &&& forall|k: int|
                0 < k < events.len() ==> #[trigger] staging_run(phase, version, events).2[k]
                    == staging_run(p, v, events.drop_first()).2[k - 1]
        }),
    decreases events.len(),
{
    if events.len() > 0 {
        let (p, v, a) = staging_step_spec(phase, version, events[0]);
        lemma_run_actions(p, v, events.drop_first());
    }
}

/// A run that starts in a phase owing the marker and ends in one that does
/// not has been told that the marker was written.
proof fn lemma_owed_marker_written(
    phase: StagingPhase,
    version: Option<Seq<char>>,
    events: Seq<StagingEventView>,
)
    requires
        marker_owed(phase),
        !marker_owed(staging_run(phase, version, events).0),
    ensures
        exists|j: int| 0 <= j < events.len() && events[j] == StagingEventView::MarkerWritten,
    decreases events.len(),
{
    if events.len() > 0 {
        let (p, v, a) = staging_step_spec(phase, version, events[0]);
        law_update_records_check(phase, version, events[0]);
        if marker_owed(p) {
            lemma_owed_marker_written(p, v, events.drop_first());
            let j = choose|j: int|
                0 <= j < events.drop_first().len() && events.drop_first()[j]
                    == StagingEventView::MarkerWritten;
            assert(events[j + 1] == StagingEventView::MarkerWritten);
        } else {
            assert(events[0] == StagingEventView::MarkerWritten);
        }
    }
}

/// A finished run that asked for the self-update at its `i`-th step was
/// told afterwards that the marker was written.
proof fn lemma_update_then_marker(
    phase: StagingPhase,
    version: Option<Seq<char>>,
    events: Seq<StagingEventView>,
    i: int,
)
    requires
        0 <= i < events.len(),
        staging_run(phase, version, events).2[i] is RunUpdate,
        staging_run(phase, version, events).0 == StagingPhase::Done,
    ensures
        exists|j: int| i < j < events.len() && events[j] == StagingEventView::MarkerWritten,
    decreases events.len(),
{
    let (p, v, a) = staging_step_spec(phase, version, events[0]);
    let rest = events.drop_first();
    law_update_records_check(phase, version, events[0]);
    lemma_run_actions(phase, version, events);
    lemma_run_actions(p, v, rest);
    if i == 0 {
        lemma_owed_marker_written(p, v, rest);
    } else {
        lemma_update_then_marker(p, v, rest, i - 1);
    }
    let j = choose|j: int| i - 1 < j < rest.len() && rest[j] == StagingEventView::MarkerWritten;
    assert(events[j + 1] == StagingEventView::MarkerWritten);
}

/// Every probe of the marker among `events` finds it last modified at
/// `written`, at a time `now` from `written` on and at most a week after
/// `started`.
pub open spec fn marker_probes_recent(events: Seq<StagingEventView>, started: i128, written: i128) -> bool {
    forall|k: int|
        0 <= k < events.len() ==> match #[trigger] events[k] {
            StagingEventView::MarkerProbed { marker, now } => marker == FileProbe::Modified(written)
                && written <= now && now - started <= update_interval(),
            _ => true,
        }
}

/// Outside the update, a run whose marker probes are all recent asks for
/// no self-update.
proof fn lemma_recent_marker_no_update(
    phase: StagingPhase,
    version: Option<Seq<char>>,
    events: Seq<StagingEventView>,
    started: i128,
    written: i128,
)
    requires
        phase != StagingPhase::Updating,
        started <= written,
        marker_probes_recent(events, started, written),
    ensures
        forall|k: int|
            0 <= k < events.len() ==> !(#[trigger] staging_run(phase, version, events).2[k] is RunUpdate),
    decreases events.len(),
{
    if events.len() > 0 {
        let (p, v, a) = staging_step_spec(phase, version, events[0]);
        let rest = events.drop_first();
        law_update_only_when_due(phase, version, events[0]);
        assert(match events[0] {
            StagingEventView::MarkerProbed { marker, now } => marker == FileProbe::Modified(written)
                && written <= now && now - started <= update_interval(),
            _ => true,
        });
        assert(!(a is RunUpdate));
        assert(p != StagingPhase::Updating);
        assert(marker_probes_recent(rest, started, written)) by {
            assert forall|k: int| 0 <= k < rest.len() implies match #[trigger] rest[k] {
                StagingEventView::MarkerProbed { marker, now } => marker == FileProbe::Modified(written)
                    && written <= now && now - started <= update_interval(),
                _ => true,
            } by {
                assert(rest[k] == events[k + 1]);
            }
        }
        lemma_recent_marker_no_update(p, v, rest, started, written);
        lemma_run_actions(phase, version, events);
        lemma_run_actions(p, v, rest);
        let run = staging_run(phase, version, events).2;
        assert forall|k: int| 0 <= k < events.len() implies !(#[trigger] run[k] is RunUpdate) by {
            if k > 0 {
                assert(run[k] == staging_run(p, v, rest).2[k - 1]);
            }
        }
    }
}

/// yt-dlp updates itself at most once a week, across runs of the staging.
/// A first run that asked for the self-update and finished was told, after
/// that request, that the update marker was written. If that marker, written
/// at `written` (no earlier than the update `started`), is what every marker
/// probe of a second run finds, and the second run probes no earlier than
/// `written` and at most a week after `started`, the second run asks for no
/// self-update.
pub proof fn law_update_at_most_weekly_across_runs(
    first: Seq<StagingEventView>,
    i: int,
    second: Seq<StagingEventView>,
    started: i128,
    written: i128,
)
    requires
        0 <= i < first.len(),
        staging_run(StagingPhase::CreatingDir, None, first).2[i] is RunUpdate,
        staging_run(StagingPhase::CreatingDir, None, first).0 == StagingPhase::Done,
        started <= written,
        marker_probes_recent(second, started, written),
    ensures
        exists|j: int| i < j < first.len() && first[j] == StagingEventView::MarkerWritten,
        forall|k: int|
            0 <= k < second.len() ==> !(#[trigger] staging_run(
                StagingPhase::CreatingDir,
                None,
                second,
            ).2[k] is RunUpdate),
{
    lemma_update_then_marker(StagingPhase::CreatingDir, None, first, i);
    lemma_recent_marker_no_update(StagingPhase::CreatingDir, None, second, started, written);
}

/// The bundled binary is staged exactly when the per-user copy is stale or
/// the bundled binary is newer.
pub proof fn law_stage_when_stale_or_newer(
    version: Option<Seq<char>>,
    bundled: FileProbe,
    user: FileProbe,
    now: i128,
)
    ensures
        (staging_step_spec(
            StagingPhase::ProbingCopies,
            version,
            StagingEventView::CopiesProbed { bundled, user, now },
        ).2 is StageBundled) == (older_than_spec(user, now, stale_after()) || bundled_newer_spec(
            bundled,
            user,
        )),
{
}

/// A version is handed out only if the copy reported it: whenever a step
/// yields a version, it is the one carried so far or the one just read;
/// and a copy that fails to report a version is removed.
pub proof fn law_version_is_reported(
    phase: StagingPhase,
    version: Option<Seq<char>>,
    event: StagingEventView,
)
    ensures
        ({
            let (p, v, a) = staging_step_spec(phase, version, event);
            &&& v is Some ==> (v == version || event == StagingEventView::VersionRead(v))
            &&& a matches StagingActionView::Finish(f) ==> f == v
            &&& (event == StagingEventView::VersionRead(None) && (phase
                == StagingPhase::ReadingVersion || phase == StagingPhase::ReadingUpdatedVersion))
                ==> a is RemoveCopy
        }),
{
}

} // verus!
