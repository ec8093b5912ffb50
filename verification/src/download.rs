//! The life of one download: what is reported when it ends, and when a
//! failed attempt is retried with the embedded web player client.
use vstd::prelude::*;
use crate::text::{
    ascii_lower, ascii_lower_chars, ascii_lower_seq, chars_of, occurs_at, contains_chars, contains_seq, owned,
    lacks, push_str, slice_chars, string_of, trim_chars, trim_spec,
};
use crate::ytdlp_args::texts;

verus! {

/// A download that finished: `path` is the output directory and `filename`
/// the file that yt-dlp wrote.
#[derive(Clone, Debug)]
pub struct CompletePayload {
    pub id: String,
    pub path: String,
    pub filename: String,
}

/// A download that failed, with the message shown to the user.
#[derive(Clone, Debug)]
pub struct ErrorPayload {
    pub id: String,
    pub error: String,
}

// ---------------------------------------------------------------------------
// Recognising errors caused by YouTube's player clients
// ---------------------------------------------------------------------------
/// The message names one of the symptoms of YouTube refusing the default
/// player client: HTTP 403, "forbidden", a bot check, a broken player
/// response, or a page that must be reloaded; case is ignored.
///
/// The markers are ASCII and contain no `k` and no `i` at their end, so
/// lower-casing the ASCII letters finds them exactly where Unicode
/// lower-casing (`str::to_lowercase`) would: the only other characters whose
/// lower case holds an ASCII letter are U+212A (to `k`) and U+0130 (to `i`
/// followed by U+0307).
pub open spec fn client_error_spec(msg: Seq<char>) -> bool {
    let l = ascii_lower_seq(msg);
    ||| contains_seq(l, "403"@)
    ||| contains_seq(l, "forbidden"@)
    ||| contains_seq(l, "sign in to confirm"@)
    ||| contains_seq(l, "not a bot"@)
    ||| contains_seq(l, "player response"@)
    ||| contains_seq(l, "needs to be reloaded"@)
}

/// Whether `needle` occurs in `hay`.
fn has_marker(hay: &Vec<char>, needle: &str) -> (r: bool)
    ensures
        r == contains_seq(hay@, needle@),
{
    let n = chars_of(needle);
    contains_chars(hay, &n)
}

/// Whether an error message is one that a different player client may avoid.
pub fn is_youtube_client_error(msg: &str) -> (r: bool)
    ensures
        r == client_error_spec(msg@),
{
    let m = chars_of(msg);
    let lower = ascii_lower_chars(&m);
    has_marker(&lower, "403") || has_marker(&lower, "forbidden") || has_marker(
        &lower,
        "sign in to confirm",
    ) || has_marker(&lower, "not a bot") || has_marker(&lower, "player response") || has_marker(
        &lower,
        "needs to be reloaded",
    )
}

/// An error message is a player-client error exactly when, with its ASCII
/// letters in lower case, it contains one of the markers `403`,
/// `forbidden`, `sign in to confirm`, `not a bot`, `player response` or
/// `needs to be reloaded`.
pub proof fn law_client_error_markers(msg: Seq<char>)
    ensures
        client_error_spec(msg) <==> ({
            let l = ascii_lower_seq(msg);
            ||| contains_seq(l, "403"@)
            ||| contains_seq(l, "forbidden"@)
            ||| contains_seq(l, "sign in to confirm"@)
            ||| contains_seq(l, "not a bot"@)
            ||| contains_seq(l, "player response"@)
            ||| contains_seq(l, "needs to be reloaded"@)
        }),
{
}

/// Lower-casing twice is lower-casing once.
proof fn lemma_ascii_lower_twice(s: Seq<char>)
    ensures
        ascii_lower_seq(ascii_lower_seq(s)) == ascii_lower_seq(s),
{
    assert forall|i: int| 0 <= i < s.len() implies #[trigger] ascii_lower(ascii_lower(s[i]))
        == ascii_lower(s[i]) by {
        let c = s[i];
        if 'A' <= c <= 'Z' {
            assert('a' <= ascii_lower(c) <= 'z');
        }
    }
    assert(ascii_lower_seq(ascii_lower_seq(s)) =~= ascii_lower_seq(s));
}

/// Whether a message is a player-client error does not depend on the case
/// of its ASCII letters.
pub proof fn law_client_error_ignores_case(msg: Seq<char>)
    ensures
        client_error_spec(ascii_lower_seq(msg)) == client_error_spec(msg),
{
    lemma_ascii_lower_twice(msg);
}

/// A marker found in `s` is found in any text around `s`.
proof fn lemma_contains_within(before: Seq<char>, s: Seq<char>, after: Seq<char>, m: Seq<char>)
    requires
        contains_seq(s, m),
    ensures
        contains_seq(before + s + after, m),
{
    let i = choose|i: int| occurs_at(s, m, i);
    let t = before + s + after;
    assert(t.subrange(before.len() + i, before.len() + i + m.len()) =~= s.subrange(i, i + m.len()));
    assert(occurs_at(t, m, before.len() + i));
}

/// A player-client error stays one inside a longer message: text added
/// before or after the message does not hide the marker.
pub proof fn law_client_error_in_longer_message(before: Seq<char>, msg: Seq<char>, after: Seq<char>)
    requires
        client_error_spec(msg),
    ensures
        client_error_spec(before + msg + after),
{
    let lb = ascii_lower_seq(before);
    let lm = ascii_lower_seq(msg);
    let la = ascii_lower_seq(after);
    assert(ascii_lower_seq(before + msg + after) =~= lb + lm + la);
    if contains_seq(lm, "403"@) {
        lemma_contains_within(lb, lm, la, "403"@);
    } else if contains_seq(lm, "forbidden"@) {
        lemma_contains_within(lb, lm, la, "forbidden"@);
    } else if contains_seq(lm, "sign in to confirm"@) {
        lemma_contains_within(lb, lm, la, "sign in to confirm"@);
    } else if contains_seq(lm, "not a bot"@) {
        lemma_contains_within(lb, lm, la, "not a bot"@);
    } else if contains_seq(lm, "player response"@) {
        lemma_contains_within(lb, lm, la, "player response"@);
    } else {
        lemma_contains_within(lb, lm, la, "needs to be reloaded"@);
    }
}

// ---------------------------------------------------------------------------
// The retry policy
// ---------------------------------------------------------------------------
/// Where a download stands between attempts.
#[derive(Clone, Copy, Debug, PartialEq, Eq, Structural)]
pub enum Phase {
    /// The first attempt, with yt-dlp's default player client, is running.
    FirstAttempt,
    /// The single retry, with the embedded web player client, is running.
    Retried,
    /// Nothing more will run.
    Finished,
}

/// What to do after an attempt ended.
pub enum SupervisorAction {
    /// Run yt-dlp again with these extra arguments.
    Launch(Vec<String>),
    /// Stop without telling the user anything.
    Stop,
    /// Stop and report this error.
    Report(ErrorPayload),
}

/// The mathematical content of a [`SupervisorAction`].
pub enum ActionView {
    Launch(Seq<Seq<char>>),
    Stop,
    Report(Seq<char>, Seq<char>),
}

impl View for SupervisorAction {
    type V = ActionView;

    open spec fn view(&self) -> ActionView {
        match self {
            SupervisorAction::Launch(args) => ActionView::Launch(texts(args@)),
            SupervisorAction::Stop => ActionView::Stop,
            SupervisorAction::Report(p) => ActionView::Report(p.id@, p.error@),
        }
    }
}

/// The extra arguments of the retry: the embedded web player client.
pub open spec fn fallback_client_args() -> Seq<Seq<char>> {
    seq!["--extractor-args"@, "youtube:player_client=web_embedded"@]
}

/// What is added to the message when the retry fails too.
pub open spec fn retry_hint() -> Seq<char> {
    "\n\nYouTube may have changed its player clients. Updating the app (or its bundled yt-dlp) is recommended."@
}

/// The policy: a successful attempt ends the download silently. A first
/// attempt that failed with a client error is retried once with the
/// embedded web player client, unless the download was cancelled. Any
/// other failure ends the download, and is reported unless the download
/// was cancelled; a failed retry is reported with [`retry_hint`] appended.
/// Nothing is launched once the download is finished.
pub open spec fn supervise_spec(
    phase: Phase,
    id: Seq<char>,
    outcome: Result<(), Seq<char>>,
    cancelled: bool,
) -> (Phase, ActionView) {
    match phase {
        Phase::Finished => (Phase::Finished, ActionView::Stop),
        Phase::FirstAttempt => match outcome {
            Ok(()) => (Phase::Finished, ActionView::Stop),
            Err(msg) => if client_error_spec(msg) {
                if cancelled {
                    (Phase::Finished, ActionView::Stop)
                } else {
                    (Phase::Retried, ActionView::Launch(fallback_client_args()))
                }
            } else if cancelled {
                (Phase::Finished, ActionView::Stop)
            } else {
                (Phase::Finished, ActionView::Report(id, msg))
            },
        },
        Phase::Retried => match outcome {
            Ok(()) => (Phase::Finished, ActionView::Stop),
            Err(msg) => if cancelled {
                (Phase::Finished, ActionView::Stop)
            } else {
                (Phase::Finished, ActionView::Report(id, msg + retry_hint()))
            },
        },
    }
}

/// The attempts of one download, driven by the caller: it runs each
/// launch it is handed and reports how it ended.
pub struct DownloadSupervisor {
    pub id: String,
    pub phase: Phase,
}

/// The message of a failed attempt, or nothing for a successful one.
pub open spec fn outcome_text(o: Result<(), String>) -> Result<(), Seq<char>> {
    match o {
        Ok(()) => Ok(()),
        Err(m) => Err(m@),
    }
}

impl DownloadSupervisor {
    /// A download with identifier `id`, whose first attempt runs with no extra arguments.
    pub fn start(id: String) -> (r: (DownloadSupervisor, SupervisorAction))
        ensures
            r.0.id@ == id@,
            r.0.phase == Phase::FirstAttempt,
            r.1@ == ActionView::Launch(Seq::empty()),
    {
        let s = DownloadSupervisor { id, phase: Phase::FirstAttempt };
        let a = SupervisorAction::Launch(Vec::new());
        assert(a@ == ActionView::Launch(Seq::empty())) by {
            assert(texts(Seq::<String>::empty()) =~= Seq::<Seq<char>>::empty());
        }
        (s, a)
    }

    /// Takes the end of an attempt; `cancelled` tells whether the user has
    /// cancelled the download by now.
    pub fn attempt_finished(&mut self, outcome: Result<(), String>, cancelled: bool) -> (r:
        SupervisorAction)
        ensures
            final(self).id@ == old(self).id@,
            (final(self).phase, r@) == supervise_spec(
                old(self).phase,
                old(self).id@,
                outcome_text(outcome),
                cancelled,
            ),
    {
        match self.phase {
            Phase::Finished => SupervisorAction::Stop,
            Phase::FirstAttempt => match outcome {
                Ok(()) => {
                    self.phase = Phase::Finished;
                    SupervisorAction::Stop
                },
                Err(msg) => {
                    if is_youtube_client_error(msg.as_str()) {
                        if cancelled {
                            self.phase = Phase::Finished;
                            SupervisorAction::Stop
                        } else {
                            self.phase = Phase::Retried;
                            let mut args: Vec<String> = Vec::new();
                            args.push(owned("--extractor-args"));
                            args.push(owned("youtube:player_client=web_embedded"));
                            assert(texts(args@) =~= fallback_client_args());
                            SupervisorAction::Launch(args)
                        }
                    } else if cancelled {
                        self.phase = Phase::Finished;
                        SupervisorAction::Stop
                    } else {
                        self.phase = Phase::Finished;
                        let id = owned(self.id.as_str());
                        SupervisorAction::Report(ErrorPayload { id, error: msg })
                    }
                },
            },
            Phase::Retried => match outcome {
                Ok(()) => {
                    self.phase = Phase::Finished;
                    SupervisorAction::Stop
                },
                Err(msg) => {
                    self.phase = Phase::Finished;
                    if cancelled {
                        SupervisorAction::Stop
                    } else {
                        let mut v = chars_of(msg.as_str());
                        push_str(
                            &mut v,
                            "\n\nYouTube may have changed its player clients. Updating the app (or its bundled yt-dlp) is recommended.",
                        );
                        let error = string_of(&v);
                        let id = owned(self.id.as_str());
                        SupervisorAction::Report(ErrorPayload { id, error })
                    }
                },
            },
        }
    }
}

/// A download is launched at most twice: only the first attempt can lead
/// to another launch, and the launch it leads to is the last one.
pub proof fn law_retry_at_most_once(
    phase: Phase,
    id: Seq<char>,
    outcome: Result<(), Seq<char>>,
    cancelled: bool,
)
    ensures
        supervise_spec(phase, id, outcome, cancelled).1 is Launch ==> phase == Phase::FirstAttempt
            && supervise_spec(phase, id, outcome, cancelled).0 == Phase::Retried,
        phase != Phase::FirstAttempt ==> supervise_spec(phase, id, outcome, cancelled).0
            == Phase::Finished,
{
}

/// A retry happens only after a client error of a download that was not
/// cancelled, and it uses the embedded web player client.
pub proof fn law_retry_only_on_client_error(
    phase: Phase,
    id: Seq<char>,
    outcome: Result<(), Seq<char>>,
    cancelled: bool,
)
    ensures
        supervise_spec(phase, id, outcome, cancelled).1 is Launch ==> {
            &&& !cancelled
            &&& outcome matches Err(m) && client_error_spec(m)
            &&& supervise_spec(phase, id, outcome, cancelled).1 == ActionView::Launch(
                fallback_client_args(),
            )
        },
{
}

/// A cancelled download never reports an error, and a successful attempt
/// ends the download without a report.
pub proof fn law_quiet_endings(
    phase: Phase,
    id: Seq<char>,
    outcome: Result<(), Seq<char>>,
    cancelled: bool,
)
    ensures
        cancelled ==> !(supervise_spec(phase, id, outcome, cancelled).1 is Report),
        outcome is Ok ==> supervise_spec(phase, id, outcome, cancelled) == (
            Phase::Finished,
            ActionView::Stop,
        ),
{
}

/// Every report names the download it is about and carries the message of
/// the attempt that failed (with the hint after a failed retry).
pub proof fn law_report_names_download(
    phase: Phase,
    id: Seq<char>,
    outcome: Result<(), Seq<char>>,
    cancelled: bool,
)
    ensures
        supervise_spec(phase, id, outcome, cancelled).1 matches ActionView::Report(i, e) ==> {
            &&& i == id
            &&& outcome matches Err(m) && (e == m || e == m + retry_hint())
        },
{
}

/// Every failure that is not cancelled gets its answer: a client error in
/// the first attempt is retried with the embedded web player client, any
/// other failure of the first attempt is reported with its own message, and
/// a failed retry is reported with its message followed by the hint.
pub proof fn law_failures_are_answered(id: Seq<char>, msg: Seq<char>)
    ensures
        client_error_spec(msg) ==> supervise_spec(Phase::FirstAttempt, id, Err(msg), false) == (
            Phase::Retried,
            ActionView::Launch(seq!["--extractor-args"@, "youtube:player_client=web_embedded"@]),
        ),
        !client_error_spec(msg) ==> supervise_spec(Phase::FirstAttempt, id, Err(msg), false) == (
            Phase::Finished,
            ActionView::Report(id, msg),
        ),
        supervise_spec(Phase::Retried, id, Err(msg), false) == (
            Phase::Finished,
            ActionView::Report(id, msg + retry_hint()),
        ),
        supervise_spec(Phase::Finished, id, Err(msg), false) == (Phase::Finished, ActionView::Stop),
{
}

// ---------------------------------------------------------------------------
// The end of one attempt
// ---------------------------------------------------------------------------
/// The characters of `t` after its last line feed (all of `t` if it has none).
pub open spec fn after_last_newline(t: Seq<char>) -> Seq<char>
    decreases t.len(),
{
    if t.len() == 0 {
        t
    } else if t.last() == '\n' {
        Seq::empty()
    } else {
        after_last_newline(t.drop_last()).push(t.last())
    }
}

/// The last of the lines of `s` (what `s.lines().last()` gives): lines end
/// at `\n` or `\r\n`, and a final line ending does not start another line.
pub open spec fn last_line_spec(s: Seq<char>) -> Option<Seq<char>> {
    if s.len() == 0 {
        None
    } else if s.last() == '\n' {
        let seg = after_last_newline(s.drop_last());
        Some(
            if seg.len() > 0 && seg.last() == '\r' {
                seg.drop_last()
            } else {
                seg
            },
        )
    } else {
        Some(after_last_newline(s))
    }
}

proof fn lemma_after_last_newline(t: Seq<char>, k: int)
    requires
        0 <= k <= t.len(),
        k == 0 || t[k - 1] == '\n',
        forall|j: int| k <= j < t.len() ==> t[j] != '\n',
    ensures
        after_last_newline(t) == t.subrange(k, t.len() as int),
    decreases t.len(),
{
    if t.len() == k {
        if k > 0 {
            assert(t.last() == '\n');
        }
        assert(t.subrange(k, t.len() as int) =~= Seq::<char>::empty());
    } else {
        lemma_after_last_newline(t.drop_last(), k);
        assert(t.subrange(k, t.len() as int) =~= t.drop_last().subrange(k, t.len() - 1).push(
            t.last(),
        ));
    }
}

/// The start of the text after the last line feed in `t[..end]`.
fn line_start(t: &Vec<char>, end: usize) -> (k: usize)
    requires
        end <= t@.len(),
    ensures
        k <= end,
        after_last_newline(t@.take(end as int)) == t@.subrange(k as int, end as int),
{
    let mut k = end;
    while k > 0 && t[k - 1] != '\n'
        invariant
            k <= end <= t@.len(),
            forall|j: int| k <= j < end ==> t@[j] != '\n',
        decreases k,
    {
        k = k - 1;
    }
    proof {
        let p = t@.take(end as int);
        lemma_after_last_newline(p, k as int);
        assert(p.subrange(k as int, end as int) =~= t@.subrange(k as int, end as int));
    }
    k
}

/// What follows the last line feed of `t` is a line-feed-free end of `t`
/// that starts at the beginning of `t` or right after a line feed.
proof fn lemma_after_last_newline_shape(t: Seq<char>) -> (k: int)
    ensures
        0 <= k <= t.len(),
        k == 0 || t[k - 1] == '\n',
        after_last_newline(t) == t.subrange(k, t.len() as int),
        lacks(after_last_newline(t), '\n'),
    decreases t.len(),
{
    if t.len() == 0 {
        assert(t.subrange(0, 0) =~= t);
        0
    } else if t.last() == '\n' {
        assert(t.subrange(t.len() as int, t.len() as int) =~= Seq::<char>::empty());
        t.len() as int
    } else {
        let k = lemma_after_last_newline_shape(t.drop_last());
        assert(t.subrange(k, t.len() as int) =~= t.drop_last().subrange(k, t.len() - 1).push(t.last()));
        if k > 0 {
            assert(t[k - 1] == t.drop_last()[k - 1]);
        }
        let r = after_last_newline(t);
        assert forall|i: int| 0 <= i < r.len() implies r[i] != '\n' by {
            if i < r.len() - 1 {
                assert(r[i] == after_last_newline(t.drop_last())[i]);
            }
        }
        k
    }
}

/// The last line of a text is a piece of it with no line feed, which
/// starts at the beginning or right after a line feed and is followed
/// only by nothing, a line feed, or a carriage return and a line feed.
/// Only the empty text has no last line.
pub proof fn law_last_line_shape(s: Seq<char>)
    ensures
        last_line_spec(s) is None <==> s.len() == 0,
        last_line_spec(s) matches Some(l) ==> {
            &&& lacks(l, '\n')
            &&& exists|k: int|
                #![trigger s.subrange(k, k + l.len())]
                0 <= k && k + l.len() <= s.len() && (k == 0 || s[k - 1] == '\n') && s.subrange(
                    k,
                    k + l.len(),
                ) == l && ({
                    let rest = s.subrange(k + l.len(), s.len() as int);
                    rest.len() == 0 || rest == seq!['\n'] || rest == seq!['\r', '\n']
                })
        },
{
    if s.len() > 0 {
        if s.last() == '\n' {
            let t = s.drop_last();
            let k = lemma_after_last_newline_shape(t);
            let seg = after_last_newline(t);
            if seg.len() > 0 && seg.last() == '\r' {
                let l = seg.drop_last();
                assert(s.subrange(k, k + l.len()) =~= l);
                assert(s.subrange(k + l.len(), s.len() as int) =~= seq!['\r', '\n']);
                if k > 0 {
                    assert(s[k - 1] == t[k - 1]);
                }
                assert(lacks(l, '\n')) by {
                    assert forall|i: int| 0 <= i < l.len() implies l[i] != '\n' by {
                        assert(l[i] == seg[i]);
                    }
                }
            } else {
                assert(s.subrange(k, k + seg.len()) =~= seg);
                assert(s.subrange(k + seg.len(), s.len() as int) =~= seq!['\n']);
                if k > 0 {
                    assert(s[k - 1] == t[k - 1]);
                }
            }
        } else {
            let k = lemma_after_last_newline_shape(s);
            let seg = after_last_newline(s);
            assert(s.subrange(k, k + seg.len()) =~= seg);
            assert(s.subrange(k + seg.len(), s.len() as int) =~= Seq::<char>::empty());
        }
    }
}

/// The last line of `s`, if it has one.
pub fn last_line(s: &Vec<char>) -> (r: Option<Vec<char>>)
    ensures
        match r {
            Some(l) => last_line_spec(s@) == Some(l@),
            None => last_line_spec(s@) is None,
        },
{
    let n = s.len();
    if n == 0 {
        return None;
    }
    if s[n - 1] == '\n' {
        let k = line_start(s, n - 1);
        assert(s@.take(n - 1) =~= s@.drop_last());
        if k < n - 1 && s[n - 2] == '\r' {
            let l = slice_chars(s, k, n - 2);
            assert(l@ =~= s@.subrange(k as int, n - 1).drop_last());
            Some(l)
        } else {
            Some(slice_chars(s, k, n - 1))
        }
    } else {
        let k = line_start(s, n);
        assert(s@.take(n as int) =~= s@);
        Some(slice_chars(s, k, n))
    }
}

/// The message of an attempt whose yt-dlp process exited with failure:
/// the last line yt-dlp wrote to its error stream, or, when that stream
/// holds only white space, the exit status.
pub open spec fn failure_message_spec(exit_status: Seq<char>, stderr_text: Seq<char>) -> Seq<
    char,
> {
    if trim_spec(stderr_text).len() == 0 {
        "yt-dlp exited with code "@ + exit_status
    } else {
        match last_line_spec(stderr_text) {
            Some(l) => l,
            None => "Unknown error"@,
        }
    }
}

/// Builds the message of a failed attempt from the exit status (as the
/// process library prints it) and the text of the error stream.
pub fn failure_message(exit_status: &str, stderr_text: &str) -> (r: String)
    ensures
        r@ == failure_message_spec(exit_status@, stderr_text@),
{
    let err = chars_of(stderr_text);
    let trimmed = trim_chars(&err);
    if trimmed.len() == 0 {
        let mut v: Vec<char> = Vec::new();
        push_str(&mut v, "yt-dlp exited with code ");
        push_str(&mut v, exit_status);
        string_of(&v)
    } else {
        match last_line(&err) {
            Some(l) => string_of(&l),
            None => owned("Unknown error"),
        }
    }
}

/// How the wait for a yt-dlp process ended.
pub enum ProcessExit {
    /// The process exited: whether with success, its exit status as the
    /// process library prints it, and what it wrote to its error stream.
    Exited { success: bool, status: String, stderr: String },
    /// Waiting for the process failed with this message.
    WaitFailed(String),
}

/// The mathematical content of a [`ProcessExit`].
pub enum ProcessExitView {
    Exited { success: bool, status: Seq<char>, stderr: Seq<char> },
    WaitFailed(Seq<char>),
}

impl View for ProcessExit {
    type V = ProcessExitView;

    open spec fn view(&self) -> ProcessExitView {
        match self {
            ProcessExit::Exited { success, status, stderr } => ProcessExitView::Exited {
                success: *success,
                status: status@,
                stderr: stderr@,
            },
            ProcessExit::WaitFailed(e) => ProcessExitView::WaitFailed(e@),
        }
    }
}

/// How one attempt ends.
pub enum AttemptEnd {
    /// It ends successfully without a report.
    Quiet,
    /// It ends successfully: the file name is asked for and the completion reported.
    Complete,
    /// It fails with this message.
    Failed(String),
}

/// The mathematical content of an [`AttemptEnd`].
pub enum AttemptEndView {
    Quiet,
    Complete,
    Failed(Seq<char>),
}

impl View for AttemptEnd {
    type V = AttemptEndView;

    open spec fn view(&self) -> AttemptEndView {
        match self {
            AttemptEnd::Quiet => AttemptEndView::Quiet,
            AttemptEnd::Complete => AttemptEndView::Complete,
            AttemptEnd::Failed(m) => AttemptEndView::Failed(m@),
        }
    }
}

/// The end of an attempt once yt-dlp's output has ended. `exit` is `None`
/// when the process was no longer recorded as running (a cancellation took
/// it out of the table), which fails the attempt as cancelled. A process
/// that exited with success completes the download unless the download was
/// cancelled, in which case it ends quietly. A failed exit gives
/// [`failure_message_spec`]; a failed wait gives `Process error: ` and its
/// message.
pub open spec fn attempt_end_spec(exit: Option<ProcessExitView>, cancelled: bool) -> AttemptEndView {
    match exit {
        None => AttemptEndView::Failed("Download was cancelled"@),
        Some(ProcessExitView::Exited { success, status, stderr }) => if success {
            if cancelled {
                AttemptEndView::Quiet
            } else {
                AttemptEndView::Complete
            }
        } else {
            AttemptEndView::Failed(failure_message_spec(status, stderr))
        },
        Some(ProcessExitView::WaitFailed(e)) => AttemptEndView::Failed("Process error: "@ + e),
    }
}

/// What the supervisor is told of an attempt that ended so.
pub open spec fn attempt_outcome(end: AttemptEndView) -> Result<(), Seq<char>> {
    match end {
        AttemptEndView::Failed(m) => Err(m),
        _ => Ok(()),
    }
}

/// Decides how an attempt ends.
pub fn attempt_end(exit: Option<ProcessExit>, cancelled: bool) -> (r: AttemptEnd)
    ensures
        r@ == attempt_end_spec(
            match exit {
                Some(e) => Some(e@),
                None => None,
            },
            cancelled,
        ),
{
    match exit {
        None => AttemptEnd::Failed(owned("Download was cancelled")),
        Some(ProcessExit::Exited { success, status, stderr }) => {
            if success {
                if cancelled {
                    AttemptEnd::Quiet
                } else {
                    AttemptEnd::Complete
                }
            } else {
                AttemptEnd::Failed(failure_message(status.as_str(), stderr.as_str()))
            }
        },
        Some(ProcessExit::WaitFailed(e)) => {
            let mut v: Vec<char> = Vec::new();
            push_str(&mut v, "Process error: ");
            push_str(&mut v, e.as_str());
            AttemptEnd::Failed(string_of(&v))
        },
    }
}

/// A cancelled download ends quietly: when it is cancelled by the time an
/// attempt ends (whether the cancellation took its process out of the table
/// or not), that attempt reports no completion, and the supervisor neither
/// launches another attempt nor reports an error. (A cancellation is kept,
/// so the supervisor, asking later, finds it too.)
pub proof fn law_cancelled_download_is_quiet(
    phase: Phase,
    id: Seq<char>,
    exit: Option<ProcessExitView>,
)
    ensures
        !(attempt_end_spec(exit, true) is Complete),
        attempt_end_spec(None, true) is Failed,
        supervise_spec(phase, id, attempt_outcome(attempt_end_spec(exit, true)), true).1 is Stop,
{
}

/// How an attempt ends: a process that exited with success completes the
/// download, or ends quietly when the download was cancelled; one that
/// exited with failure fails with its last error line, or with its exit
/// status when it wrote nothing but white space; a failed wait fails with
/// `Process error: ` and its message; a process no longer recorded fails as
/// cancelled.
pub proof fn law_attempt_endings(success: bool, status: Seq<char>, stderr: Seq<char>, cancelled: bool, e: Seq<char>)
    ensures
        success ==> attempt_end_spec(
            Some(ProcessExitView::Exited { success, status, stderr }),
            cancelled,
        ) == (if cancelled {
            AttemptEndView::Quiet
        } else {
            AttemptEndView::Complete
        }),
        !success && trim_spec(stderr).len() == 0 ==> attempt_end_spec(
            Some(ProcessExitView::Exited { success, status, stderr }),
            cancelled,
        ) == AttemptEndView::Failed("yt-dlp exited with code "@ + status),
        !success && trim_spec(stderr).len() > 0 ==> (last_line_spec(stderr) matches Some(l)
            && attempt_end_spec(Some(ProcessExitView::Exited { success, status, stderr }), cancelled)
            == AttemptEndView::Failed(l)),
        attempt_end_spec(Some(ProcessExitView::WaitFailed(e)), cancelled) == AttemptEndView::Failed(
            "Process error: "@ + e,
        ),
        attempt_end_spec(None, cancelled) == AttemptEndView::Failed("Download was cancelled"@),
{
    if trim_spec(stderr).len() > 0 {
        if stderr.len() == 0 {
            assert(trim_spec(stderr) =~= stderr);
        }
    }
}

/// A query gives an answer only when it succeeded and printed something
/// other than white space, and the answer is what it printed, trimmed.
pub proof fn law_query_answer(success: bool, stdout_text: Seq<char>)
    ensures
        query_output_spec(success, stdout_text) is Some <==> (success && trim_spec(stdout_text).len() > 0),
        query_output_spec(success, stdout_text) matches Some(t) ==> t == trim_spec(stdout_text),
{
}

/// The file reported for a finished download is the one yt-dlp named, or
/// `download.mp4` in the output directory when it named none.
pub proof fn law_finished_file(output_dir: Seq<char>, resolved: Option<Seq<char>>)
    ensures
        resolved matches Some(f) ==> finished_file_spec(output_dir, resolved) == f,
        resolved is None ==> finished_file_spec(output_dir, resolved) == output_dir + "/download.mp4"@,
{
}

/// The output of a yt-dlp query, trimmed, when the query succeeded and
/// printed something other than white space.
pub open spec fn query_output_spec(success: bool, stdout_text: Seq<char>) -> Option<Seq<char>> {
    if success && trim_spec(stdout_text).len() > 0 {
        Some(trim_spec(stdout_text))
    } else {
        None
    }
}

/// Reads the answer of a yt-dlp query (its version, or a file name).
pub fn query_output(success: bool, stdout_text: &str) -> (r: Option<String>)
    ensures
        match r {
            Some(s) => query_output_spec(success, stdout_text@) == Some(s@),
            None => query_output_spec(success, stdout_text@) is None,
        },
{
    if !success {
        return None;
    }
    let t = trim_chars(&chars_of(stdout_text));
    if t.len() == 0 {
        None
    } else {
        Some(string_of(&t))
    }
}

/// The file name reported for a finished download: the one yt-dlp gave,
/// or `download.mp4` in the output directory when it gave none.
pub open spec fn finished_file_spec(output_dir: Seq<char>, resolved: Option<Seq<char>>) -> Seq<
    char,
> {
    match resolved {
        Some(f) => f,
        None => output_dir + "/download.mp4"@,
    }
}

/// The report of a finished download.
pub fn completion_payload(id: &str, output_dir: &str, resolved: Option<String>) -> (r:
    CompletePayload)
    ensures
        r.id@ == id@,
        r.path@ == output_dir@,
        r.filename@ == finished_file_spec(
            output_dir@,
            match resolved {
                Some(f) => Some(f@),
                None => None,
            },
        ),
{
    let filename = match resolved {
        Some(f) => f,
        None => {
            let mut v = chars_of(output_dir);
            push_str(&mut v, "/download.mp4");
            string_of(&v)
        },
    };
    CompletePayload { id: owned(id), path: owned(output_dir), filename }
}

} // verus!

verus! {

// ---------------------------------------------------------------------------
// Starting a download
// ---------------------------------------------------------------------------
/// `c` is a lower-case hexadecimal digit.
pub open spec fn is_lower_hex(c: char) -> bool {
    ('0' <= c <= '9') || ('a' <= c <= 'f')
}

/// `s` is the hyphenated lower-case text of a random (version 4, RFC 4122
/// variant) UUID: 36 characters, hyphens at positions 8, 13, 18 and 23,
/// hexadecimal digits elsewhere, `4` at position 14 and one of `8`, `9`,
/// `a`, `b` at position 19.
pub open spec fn is_uuid_v4_text(s: Seq<char>) -> bool {
    &&& s.len() == 36
    &&& forall|i: int|
        0 <= i < 36 ==> if i == 8 || i == 13 || i == 18 || i == 23 {
            #[trigger] s[i] == '-'
        } else {
            is_lower_hex(s[i])
        }
    &&& s[14] == '4'
    &&& (s[19] == '8' || s[19] == '9' || s[19] == 'a' || s[19] == 'b')
}

/// The 128 bits of a random UUID made from `bits`: the version nibble set
/// to 4 and the two variant bits to `10`, all other bits kept.
pub open spec fn uuid_v4_value(bits: u128) -> u128 {
    (bits & 0xffff_ffff_ffff_0fff_3fff_ffff_ffff_ffffu128) | 0x0000_0000_0000_4000_8000_0000_0000_0000u128
}

/// The lower-case hexadecimal digit for `d` (`d < 16`).
pub open spec fn hex_digit_char(d: u128) -> char {
    if d == 0 { '0' } else if d == 1 { '1' } else if d == 2 { '2' } else if d == 3 { '3' }
    else if d == 4 { '4' } else if d == 5 { '5' } else if d == 6 { '6' } else if d == 7 { '7' }
    else if d == 8 { '8' } else if d == 9 { '9' } else if d == 10 { 'a' } else if d == 11 { 'b' }
    else if d == 12 { 'c' } else if d == 13 { 'd' } else if d == 14 { 'e' } else { 'f' }
}

/// The `k`-th hexadecimal digit of `v`, most significant first (`k < 32`).
pub open spec fn uuid_nibble(v: u128, k: int) -> u128 {
    (v >> ((124 - 4 * k) as u128)) & 0xfu128
}

/// Which hexadecimal digit stands at position `j` of the hyphenated text.
pub open spec fn uuid_digit_index(j: int) -> int {
    if j < 8 {
        j
    } else if j < 13 {
        j - 1
    } else if j < 18 {
        j - 2
    } else if j < 23 {
        j - 3
    } else {
        j - 4
    }
}

/// The hyphenated lower-case text of the random UUID made from `bits`:
/// the 32 hexadecimal digits of [`uuid_v4_value`], most significant first,
/// with hyphens at positions 8, 13, 18 and 23.
pub open spec fn uuid_v4_text_spec(bits: u128) -> Seq<char> {
    Seq::new(
        36,
        |j: int|
            if j == 8 || j == 13 || j == 18 || j == 23 {
                '-'
            } else {
                hex_digit_char(uuid_nibble(uuid_v4_value(bits), uuid_digit_index(j)))
            },
    )
}

/// The text of the random UUID made from `bits`:
/// `uuid::Builder::from_random_bytes(bits.to_be_bytes()).into_uuid().to_string()`.
///
/// Trusted: the uuid crate sets the version nibble of byte 6 to 4 and the
/// top bits of byte 8 to `10`, keeps every other bit, and prints the 16
/// bytes as lower-case hexadecimal digit pairs with hyphens after the 4th,
/// 6th, 8th and 10th byte; this claims exactly that text. The call does not
/// draw random numbers and does not panic.
#[verifier::external_body]
fn uuid_v4_text(bits: u128) -> (s: String)
    ensures
        s@ == uuid_v4_text_spec(bits),
{
    uuid::Builder::from_random_bytes(bits.to_be_bytes()).into_uuid().to_string()
}

/// The text made from any 128 bits has the shape of a random UUID.
pub proof fn lemma_uuid_v4_text_shape(bits: u128)
    ensures
        is_uuid_v4_text(uuid_v4_text_spec(bits)),
{
    let v = uuid_v4_value(bits);
    let t = uuid_v4_text_spec(bits);
    assert(((((bits & 0xffff_ffff_ffff_0fff_3fff_ffff_ffff_ffffu128)
        | 0x0000_0000_0000_4000_8000_0000_0000_0000u128) >> 76u128) & 0xfu128) == 4u128)
        by (bit_vector);
    assert(8u128 <= ((((bits & 0xffff_ffff_ffff_0fff_3fff_ffff_ffff_ffffu128)
        | 0x0000_0000_0000_4000_8000_0000_0000_0000u128) >> 60u128) & 0xfu128) <= 11u128)
        by (bit_vector);
    assert forall|x: u128, n: u128| ((x >> n) & 0xfu128) <= 15u128 by {
        assert(((x >> n) & 0xfu128) <= 15u128) by (bit_vector);
    }
    assert(uuid_nibble(v, 12) == 4);
    assert(8 <= uuid_nibble(v, 16) <= 11);
    assert forall|i: int|
        0 <= i < 36 implies if i == 8 || i == 13 || i == 18 || i == 23 {
            #[trigger] t[i] == '-'
        } else {
            is_lower_hex(t[i])
        } by {
        if !(i == 8 || i == 13 || i == 18 || i == 23) {
            assert(uuid_nibble(v, uuid_digit_index(i)) <= 15);
        }
    }
    assert(t[14] == hex_digit_char(uuid_nibble(v, 12)));
    assert(t[19] == hex_digit_char(uuid_nibble(v, 16)));
}

/// A download about to start: its identifier and output template.
pub struct DownloadPlan {
    pub id: String,
    pub output_template: String,
}

/// Prepares a download into `output_dir`: the identifier is the random
/// UUID made from `bits` (drawn by the caller), no longer marked as
/// cancelled; and the output template.
pub fn plan_download(
    cancelled: &mut crate::registry::CancelledIds,
    output_dir: &str,
    bits: u128,
) -> (r: DownloadPlan)
    ensures
        r.id@ == uuid_v4_text_spec(bits),
        is_uuid_v4_text(r.id@),
        r.output_template@ == crate::ytdlp_args::output_template_spec(output_dir@),
        final(cancelled).view() == old(cancelled).view().remove(r.id@),
{
    let id = uuid_v4_text(bits);
    proof {
        lemma_uuid_v4_text_shape(bits);
    }
    let output_template = crate::ytdlp_args::output_template(output_dir);
    cancelled.remove(id.as_str());
    DownloadPlan { id, output_template }
}

} // verus!
