//! The parts of a video's metadata that the format picker shows: the
//! header fields, and the list of formats without storyboards and HLS
//! playlists.
use serde_json::Value;
use vstd::prelude::*;
use crate::text::{chars_of, contains_chars, contains_seq, opt_chars, owned, push_str, str_eq, string_of};

verus! {

/// `o`, or `default` when it is absent.
pub open spec fn or_default(o: Option<Seq<char>>, default: Seq<char>) -> Seq<char> {
    match o {
        Some(s) => s,
        None => default,
    }
}

/// The text fields of the metadata that yt-dlp printed, each present only
/// when the JSON held a string there.
pub struct RawHeader {
    pub id: Option<String>,
    pub title: Option<String>,
    pub thumbnail: Option<String>,
    pub webpage_url: Option<String>,
}

/// The mathematical content of a [`RawHeader`].
pub struct RawHeaderView {
    pub id: Option<Seq<char>>,
    pub title: Option<Seq<char>>,
    pub thumbnail: Option<Seq<char>>,
    pub webpage_url: Option<Seq<char>>,
}

impl View for RawHeader {
    type V = RawHeaderView;

    open spec fn view(&self) -> RawHeaderView {
        RawHeaderView {
            id: opt_chars(self.id),
            title: opt_chars(self.title),
            thumbnail: opt_chars(self.thumbnail),
            webpage_url: opt_chars(self.webpage_url),
        }
    }
}

/// The header of a video as shown to the user.
pub struct MetadataHeader {
    pub id: String,
    pub title: String,
    pub thumbnail: String,
    pub webpage_url: String,
}

/// The header shown for `raw`: missing fields become empty, except the
/// title (`Unknown`) and the page address (the URL that was queried).
pub open spec fn header_spec(raw: RawHeaderView, url: Seq<char>) -> (Seq<char>, Seq<char>, Seq<char>, Seq<char>) {
    (
        or_default(raw.id, Seq::empty()),
        or_default(raw.title, "Unknown"@),
        or_default(raw.thumbnail, Seq::empty()),
        or_default(raw.webpage_url, url),
    )
}

/// The header shows the video's own identifier, title, thumbnail and page
/// address; a missing one shows as empty, except the title (`Unknown`) and
/// the page address (the URL that was queried).
pub proof fn law_header_fields(raw: RawHeaderView, url: Seq<char>)
    ensures
        header_spec(raw, url).0 == (match raw.id {
            Some(x) => x,
            None => Seq::<char>::empty(),
        }),
        header_spec(raw, url).1 == (match raw.title {
            Some(x) => x,
            None => "Unknown"@,
        }),
        header_spec(raw, url).2 == (match raw.thumbnail {
            Some(x) => x,
            None => Seq::<char>::empty(),
        }),
        header_spec(raw, url).3 == (match raw.webpage_url {
            Some(x) => x,
            None => url,
        }),
{
}

/// An owned copy of `o`, or of `default` when it is absent.
fn text_or(o: &Option<String>, default: &str) -> (r: String)
    ensures
        r@ == or_default(opt_chars(*o), default@),
{
    match o {
        Some(s) => owned(s.as_str()),
        None => owned(default),
    }
}

/// Builds the header shown for `raw`, queried for `url`.
pub fn metadata_header(raw: &RawHeader, url: &str) -> (r: MetadataHeader)
    ensures
        (r.id@, r.title@, r.thumbnail@, r.webpage_url@) == header_spec(raw@, url@),
{
    proof {
        reveal_strlit("");
        assert(""@ =~= Seq::<char>::empty());
    }
    MetadataHeader {
        id: text_or(&raw.id, ""),
        title: text_or(&raw.title, "Unknown"),
        thumbnail: text_or(&raw.thumbnail, ""),
        webpage_url: text_or(&raw.webpage_url, url),
    }
}

/// The fields of one format entry that the picker reads, each present only
/// when the JSON held a value of the right kind there.
pub struct RawFormat {
    pub format_id: Option<String>,
    pub ext: Option<String>,
    pub resolution: Option<String>,
    pub vcodec: Option<String>,
    pub acodec: Option<String>,
    pub format_note: Option<String>,
    pub filesize: Option<u64>,
}

/// The mathematical content of a [`RawFormat`].
pub struct RawFormatView {
    pub format_id: Option<Seq<char>>,
    pub ext: Option<Seq<char>>,
    pub resolution: Option<Seq<char>>,
    pub vcodec: Option<Seq<char>>,
    pub acodec: Option<Seq<char>>,
    pub format_note: Option<Seq<char>>,
    pub filesize: Option<u64>,
}

impl View for RawFormat {
    type V = RawFormatView;

    open spec fn view(&self) -> RawFormatView {
        RawFormatView {
            format_id: opt_chars(self.format_id),
            ext: opt_chars(self.ext),
            resolution: opt_chars(self.resolution),
            vcodec: opt_chars(self.vcodec),
            acodec: opt_chars(self.acodec),
            format_note: opt_chars(self.format_note),
            filesize: self.filesize,
        }
    }
}

/// One format as the picker shows it.
pub struct FormatSummary {
    pub format_id: String,
    pub ext: String,
    pub resolution: String,
    pub vcodec: String,
    pub acodec: String,
    pub filesize: Option<u64>,
    pub has_audio: bool,
    pub has_video: bool,
    pub format_note: String,
}

/// The mathematical content of a [`FormatSummary`].
pub struct FormatSummaryView {
    pub format_id: Seq<char>,
    pub ext: Seq<char>,
    pub resolution: Seq<char>,
    pub vcodec: Seq<char>,
    pub acodec: Seq<char>,
    pub filesize: Option<u64>,
    pub has_audio: bool,
    pub has_video: bool,
    pub format_note: Seq<char>,
}

impl View for FormatSummary {
    type V = FormatSummaryView;

    open spec fn view(&self) -> FormatSummaryView {
        FormatSummaryView {
            format_id: self.format_id@,
            ext: self.ext@,
            resolution: self.resolution@,
            vcodec: self.vcodec@,
            acodec: self.acodec@,
            filesize: self.filesize,
            has_audio: self.has_audio,
            has_video: self.has_video,
            format_note: self.format_note@,
        }
    }
}

/// A format is hidden when its note says it is a storyboard or mentions an
/// HLS (`m3u8`) playlist.
pub open spec fn hidden_note(note: Seq<char>) -> bool {
    note == "storyboard"@ || contains_seq(note, "m3u8"@)
}

/// The picker's view of a format entry, or nothing when it is hidden:
/// missing codecs count as `none`, a missing resolution or extension as
/// `?`, a missing identifier or note as empty; a format has audio (video)
/// when its audio (video) codec is not `none`.
pub open spec fn summarize_spec(raw: RawFormatView) -> Option<FormatSummaryView> {
    let note = or_default(raw.format_note, Seq::empty());
    let vcodec = or_default(raw.vcodec, "none"@);
    let acodec = or_default(raw.acodec, "none"@);
    if hidden_note(note) {
        None
    } else {
        Some(
            FormatSummaryView {
                format_id: or_default(raw.format_id, Seq::empty()),
                ext: or_default(raw.ext, "?"@),
                resolution: or_default(raw.resolution, "?"@),
                vcodec,
                acodec,
                filesize: raw.filesize,
                has_audio: acodec != "none"@,
                has_video: vcodec != "none"@,
                format_note: note,
            },
        )
    }
}

/// A shown format keeps each field of its entry in its own place: the
/// identifier, extension, resolution, codecs, size and note are the entry's
/// own (with the defaults empty, `?`, `?`, `none`, `none`, no size, empty),
/// and it has audio (video) exactly when its entry names an audio (video)
/// codec other than `none`. An entry is hidden exactly when its note is
/// `storyboard` or contains `m3u8`.
pub proof fn law_summary_fields(raw: RawFormatView)
    ensures
        summarize_spec(raw) is None <==> (raw.format_note matches Some(n) && (n == "storyboard"@
            || contains_seq(n, "m3u8"@))),
        summarize_spec(raw) matches Some(f) ==> {
            &&& f.format_id == (match raw.format_id {
                Some(x) => x,
                None => Seq::<char>::empty(),
            })
            &&& f.ext == (match raw.ext {
                Some(x) => x,
                None => seq!['?'],
            })
            &&& f.resolution == (match raw.resolution {
                Some(x) => x,
                None => seq!['?'],
            })
            &&& f.vcodec == (match raw.vcodec {
                Some(x) => x,
                None => "none"@,
            })
            &&& f.acodec == (match raw.acodec {
                Some(x) => x,
                None => "none"@,
            })
            &&& f.filesize == raw.filesize
            &&& f.format_note == (match raw.format_note {
                Some(x) => x,
                None => Seq::<char>::empty(),
            })
            &&& f.has_audio == (raw.acodec matches Some(a) && a != "none"@)
            &&& f.has_video == (raw.vcodec matches Some(v) && v != "none"@)
        },
{
    reveal_strlit("?");
    reveal_strlit("storyboard");
    reveal_strlit("m3u8");
    let e = Seq::<char>::empty();
    assert("storyboard"@.len() == 10);
    assert(e.len() != "storyboard"@.len());
    assert(!contains_seq(e, "m3u8"@)) by {
        assert forall|i: int| !crate::text::occurs_at(e, "m3u8"@, i) by {}
    }
}

/// The picker's view of one format entry.
pub fn summarize_format(raw: &RawFormat) -> (r: Option<FormatSummary>)
    ensures
        match r {
            Some(f) => summarize_spec(raw@) == Some(f@),
            None => summarize_spec(raw@) is None,
        },
{
    proof {
        reveal_strlit("");
        assert(""@ =~= Seq::<char>::empty());
    }
    let note = text_or(&raw.format_note, "");
    let vcodec = text_or(&raw.vcodec, "none");
    let acodec = text_or(&raw.acodec, "none");
    let note_chars = chars_of(note.as_str());
    if str_eq(note.as_str(), "storyboard") || contains_chars(&note_chars, &chars_of("m3u8")) {
        return None;
    }
    let has_audio = !str_eq(acodec.as_str(), "none");
    let has_video = !str_eq(vcodec.as_str(), "none");
    Some(
        FormatSummary {
            format_id: text_or(&raw.format_id, ""),
            ext: text_or(&raw.ext, "?"),
            resolution: text_or(&raw.resolution, "?"),
            vcodec,
            acodec,
            filesize: raw.filesize,
            has_audio,
            has_video,
            format_note: note,
        },
    )
}

/// The shown formats, in their order, each with its position among the
/// entries.
pub open spec fn shown_formats(raws: Seq<RawFormatView>) -> Seq<(int, FormatSummaryView)>
    decreases raws.len(),
{
    if raws.len() == 0 {
        Seq::empty()
    } else {
        let prev = shown_formats(raws.drop_last());
        match summarize_spec(raws.last()) {
            Some(f) => prev.push((raws.len() - 1, f)),
            None => prev,
        }
    }
}

/// The picker lists exactly the entries that are shown, in their order:
/// each listed pair holds the position of an entry and that entry's
/// summary, positions strictly increase, and every entry that is shown is
/// listed.
pub proof fn law_shown_formats(raws: Seq<RawFormatView>)
    ensures
        forall|k: int|
            0 <= k < shown_formats(raws).len() ==> {
                let (pos, f) = #[trigger] shown_formats(raws)[k];
                &&& 0 <= pos < raws.len()
                &&& summarize_spec(raws[pos]) == Some(f)
            },
        forall|k1: int, k2: int|
            0 <= k1 < k2 < shown_formats(raws).len() ==> (#[trigger] shown_formats(raws)[k1]).0
                < (#[trigger] shown_formats(raws)[k2]).0,
        forall|j: int|
            0 <= j < raws.len() && (#[trigger] summarize_spec(raws[j])) is Some ==> exists|k: int|
                0 <= k < shown_formats(raws).len() && shown_formats(raws)[k].0 == j,
    decreases raws.len(),
{
    if raws.len() > 0 {
        let prev = raws.drop_last();
        law_shown_formats(prev);
        let sp = shown_formats(prev);
        let sh = shown_formats(raws);
        assert forall|k: int| 0 <= k < sp.len() implies (#[trigger] sp[k]).0 < raws.len() - 1 && raws[sp[k].0] == prev[sp[k].0] by {}
        assert forall|j: int|
            0 <= j < raws.len() && (#[trigger] summarize_spec(raws[j])) is Some implies exists|k: int|
                0 <= k < sh.len() && sh[k].0 == j by {
            if j < raws.len() - 1 {
                assert(raws[j] == prev[j]);
                assert(summarize_spec(prev[j]) is Some);
                let k = choose|k: int| 0 <= k < sp.len() && sp[k].0 == j;
                assert(sh[k] == sp[k]);
            } else {
                assert(sh[sp.len() as int].0 == j);
            }
        }
    }
}

/// The views of the format entries.
pub open spec fn raw_views(v: Seq<RawFormat>) -> Seq<RawFormatView> {
    v.map_values(|r: RawFormat| r@)
}

/// The views of the shown formats with their positions.
pub open spec fn shown_views(v: Seq<(usize, FormatSummary)>) -> Seq<(int, FormatSummaryView)> {
    v.map_values(|p: (usize, FormatSummary)| (p.0 as int, p.1@))
}

/// The formats to show, with the position of each among `raws`; a
/// missing format list counts as empty.
pub fn select_formats(raws: &Option<Vec<RawFormat>>) -> (r: Vec<(usize, FormatSummary)>)
    ensures
        shown_views(r@) == match raws {
            Some(v) => shown_formats(raw_views(v@)),
            None => Seq::empty(),
        },
{
    let mut r: Vec<(usize, FormatSummary)> = Vec::new();
    match raws {
        None => {
            assert(shown_views(r@) =~= Seq::<(int, FormatSummaryView)>::empty());
        },
        Some(v) => {
            let ghost all = raw_views(v@);
            let mut i: usize = 0;
            assert(all.take(0) =~= Seq::<RawFormatView>::empty());
            assert(shown_views(r@) =~= shown_formats(all.take(0)));
            while i < v.len()
                invariant
                    i <= v@.len(),
                    all == raw_views(v@),
                    shown_views(r@) == shown_formats(all.take(i as int)),
                decreases v@.len() - i,
            {
                let ghost before = r@;
                assert(all.take(i + 1).drop_last() =~= all.take(i as int));
                assert(all.take(i + 1).last() == v@[i as int]@);
                match summarize_format(&v[i]) {
                    Some(f) => {
                        r.push((i, f));
                        assert(shown_views(r@) =~= shown_views(before).push(
                            (i as int, r@[r@.len() - 1].1@),
                        ));
                    },
                    None => {},
                }
                i = i + 1;
            }
            assert(all.take(v@.len() as int) =~= all);
        },
    }
    r
}

/// The message of a metadata query that yt-dlp refused.
pub open spec fn query_error_spec(stderr_text: Seq<char>) -> Seq<char> {
    "yt-dlp error: "@ + stderr_text
}

/// Builds the message of a refused metadata query.
pub fn query_error(stderr_text: &str) -> (r: String)
    ensures
        r@ == query_error_spec(stderr_text@),
{
    let mut v: Vec<char> = Vec::new();
    push_str(&mut v, "yt-dlp error: ");
    push_str(&mut v, stderr_text);
    string_of(&v)
}

// ---------------------------------------------------------------------------
// Reading the JSON that yt-dlp prints
// ---------------------------------------------------------------------------
/// What the JSON document `stdout` holds for the picker, if it is valid
/// JSON: the string fields `id`, `title`, `thumbnail` and `webpage_url` of
/// the top level, and, when `formats` is an array, the fields of each of
/// its entries (the strings `format_id`, `ext`, `resolution`, `vcodec`,
/// `acodec`, `format_note` and the unsigned integer `filesize`), in order.
/// When the bytes are not valid JSON: the parser's message.
pub uninterp spec fn json_metadata(stdout: Seq<u8>) -> Result<(RawHeaderView, Option<Seq<RawFormatView>>), Seq<char>>;

/// Parses yt-dlp's JSON output with `serde_json::from_slice` into a
/// `serde_json::Value` and reads the picker's fields from it (`as_str`,
/// `as_array`, `as_u64`).
///
/// Trusted: the outcome is a function of the bytes alone, named
/// [`json_metadata`]: the fields read on success, or the text of
/// serde_json's error (its `Display`) on failure. Nothing more is claimed
/// of the parse.
#[verifier::external_body]
fn read_json_metadata(stdout: &[u8]) -> (r: Result<(RawHeader, Option<Vec<RawFormat>>), String>)
    ensures
        match r {
            Ok((h, f)) => json_metadata(stdout@) == Ok::<_, Seq<char>>(
                (
                    h@,
                    match f {
                        Some(v) => Some(raw_views(v@)),
                        None => None,
                    },
                ),
            ),
            Err(e) => json_metadata(stdout@) == Err::<(RawHeaderView, Option<Seq<RawFormatView>>), _>(e@),
        },
{
    let v: Value = serde_json::from_slice(stdout).map_err(|e| e.to_string())?;
    let t = |f: &Value, k: &str| f[k].as_str().map(str::to_string);
    let h = RawHeader { id: t(&v, "id"), title: t(&v, "title"), thumbnail: t(&v, "thumbnail"), webpage_url: t(&v, "webpage_url") };
    let formats = v["formats"].as_array().map(|a| a.iter().map(|f| RawFormat {
        format_id: t(f, "format_id"), ext: t(f, "ext"), resolution: t(f, "resolution"), vcodec: t(f, "vcodec"),
        acodec: t(f, "acodec"), format_note: t(f, "format_note"), filesize: f["filesize"].as_u64(),
    }).collect());
    Ok((h, formats))
}

/// The prefix of the message of an output that is not valid JSON.
pub open spec fn json_error_prefix() -> Seq<char> {
    "Failed to parse metadata JSON: "@
}

/// What the picker shows for the JSON output `stdout` of a metadata query
/// for `url`: when it is not valid JSON, an error made of
/// [`json_error_prefix`] and the parser's message; otherwise the header as [`header_spec`] gives it, and the
/// shown formats with their positions (none when there is no format list).
pub fn read_metadata(stdout: &[u8], url: &str) -> (r: Result<(MetadataHeader, Vec<(usize, FormatSummary)>), String>)
    ensures
        match json_metadata(stdout@) {
            Err(m) => match r {
                Err(e) => e@ == json_error_prefix() + m,
                Ok(_) => false,
            },
            Ok((h, f)) => match r {
                Ok((hd, fs)) => (hd.id@, hd.title@, hd.thumbnail@, hd.webpage_url@) == header_spec(
                    h,
                    url@,
                ) && shown_views(fs@) == match f {
                    Some(v) => shown_formats(v),
                    None => Seq::empty(),
                },
                Err(_) => false,
            },
        },
{
    match read_json_metadata(stdout) {
        Err(e) => {
            let mut v: Vec<char> = Vec::new();
            push_str(&mut v, "Failed to parse metadata JSON: ");
            push_str(&mut v, e.as_str());
            Err(string_of(&v))
        },
        Ok((h, formats)) => {
            let header = metadata_header(&h, url);
            let shown = select_formats(&formats);
            Ok((header, shown))
        },
    }
}

} // verus!
