//! The command lines handed to yt-dlp.
use vstd::prelude::*;
use crate::text::{owned, push_str, string_of};

verus! {

/// The characters of each string in a sequence of strings.
pub open spec fn texts(v: Seq<String>) -> Seq<Seq<char>> {
    v.map_values(|s: String| s@)
}

/// The characters of each string slice in a sequence of slices.
pub open spec fn str_texts(v: Seq<&str>) -> Seq<Seq<char>> {
    v.map_values(|s: &str| s@)
}

/// The progress template that makes yt-dlp print lines that
/// [`crate::progress::parse_progress_line`] reads.
pub open spec fn progress_template_spec() -> Seq<char> {
    "downloaded:%(progress.downloaded_bytes)s|total:%(progress.total_bytes_estimate)s|speed:%(progress.speed)s|eta:%(progress.eta)s|pct:%(progress._percent_str)s"@
}

/// Appends an owned copy of `s` to `v`.
fn push_arg(v: &mut Vec<String>, s: &str)
    ensures
        texts(final(v)@) == texts(old(v)@).push(s@),
{
    v.push(owned(s));
    assert(texts(final(v)@) =~= texts(old(v)@).push(s@));
}

/// Appends copies of all strings of `w` to `v`.
fn push_args(v: &mut Vec<String>, w: &Vec<String>)
    ensures
        texts(final(v)@) == texts(old(v)@) + texts(w@),
{
    let ghost start = texts(v@);
    let mut i: usize = 0;
    while i < w.len()
        invariant
            i <= w@.len(),
            texts(v@) == start + texts(w@.take(i as int)),
        decreases w@.len() - i,
    {
        push_arg(v, w[i].as_str());
        i = i + 1;
        assert(texts(w@.take(i as int)) =~= texts(w@.take(i - 1)).push(w@[i - 1]@));
    }
    assert(w@.take(w@.len() as int) =~= w@);
}

/// Appends copies of all string slices of `w` to `v`.
fn push_strs(v: &mut Vec<String>, w: &[&str])
    ensures
        texts(final(v)@) == texts(old(v)@) + str_texts(w@),
{
    let ghost start = texts(v@);
    let mut i: usize = 0;
    while i < w.len()
        invariant
            i <= w@.len(),
            texts(v@) == start + str_texts(w@.take(i as int)),
        decreases w@.len() - i,
    {
        push_arg(v, w[i]);
        i = i + 1;
        assert(str_texts(w@.take(i as int)) =~= str_texts(w@.take(i - 1)).push(w@[i - 1]@));
    }
    assert(w@.take(w@.len() as int) =~= w@);
}

/// The arguments that point yt-dlp at Deno as its JavaScript runtime:
/// `--js-runtimes deno:<path>` when the Deno binary exists, nothing otherwise.
pub open spec fn js_runtime_args_spec(deno: Seq<char>, deno_exists: bool) -> Seq<Seq<char>> {
    if deno_exists {
        seq!["--js-runtimes"@, "deno:"@ + deno]
    } else {
        Seq::empty()
    }
}

/// Builds the JavaScript-runtime arguments for the Deno binary found at `deno`.
pub fn js_runtime_args(deno: &str, deno_exists: bool) -> (r: Vec<String>)
    ensures
        texts(r@) == js_runtime_args_spec(deno@, deno_exists),
{
    let mut r: Vec<String> = Vec::new();
    if deno_exists {
        push_arg(&mut r, "--js-runtimes");
        let mut v: Vec<char> = Vec::new();
        push_str(&mut v, "deno:");
        push_str(&mut v, deno);
        let s = string_of(&v);
        assert(texts(r@) =~= seq!["--js-runtimes"@]);
        let ghost r0 = r@;
        let ghost sv = s@;
        r.push(s);
        assert(r@ == r0.push(s));
        assert(texts(r@) =~= texts(r0).push(sv));
        assert(texts(r@) =~= js_runtime_args_spec(deno@, deno_exists));
    } else {
        assert(texts(r@) =~= js_runtime_args_spec(deno@, deno_exists));
    }
    r
}

/// The arguments of a download run, in order: format, output template,
/// one progress line per update in the progress template, the ffmpeg
/// location, no playlist, no modification times, no self-update, then the
/// extra arguments, the JavaScript-runtime arguments and the URL.
pub open spec fn download_args_spec(
    format_id: Seq<char>,
    output_template: Seq<char>,
    ffmpeg: Seq<char>,
    extra: Seq<Seq<char>>,
    js: Seq<Seq<char>>,
    url: Seq<char>,
) -> Seq<Seq<char>> {
    seq![
        "-f"@,
        format_id,
        "-o"@,
        output_template,
        "--newline"@,
        "--progress-template"@,
        progress_template_spec(),
        "--ffmpeg-location"@,
        ffmpeg,
        "--no-playlist"@,
        "--no-mtime"@,
        "--no-update"@,
    ] + extra + js + seq![url]
}

/// Builds the arguments of a download run.
pub fn ytdlp_download_args(
    format_id: &str,
    output_template: &str,
    ffmpeg: &str,
    extra_args: &[&str],
    js_args: &Vec<String>,
    url: &str,
) -> (r: Vec<String>)
    ensures
        texts(r@) == download_args_spec(
            format_id@,
            output_template@,
            ffmpeg@,
            str_texts(extra_args@),
            texts(js_args@),
            url@,
        ),
{
    let mut r: Vec<String> = Vec::new();
    push_arg(&mut r, "-f");
    push_arg(&mut r, format_id);
    push_arg(&mut r, "-o");
    push_arg(&mut r, output_template);
    push_arg(&mut r, "--newline");
    push_arg(&mut r, "--progress-template");
    push_arg(
        &mut r,
        "downloaded:%(progress.downloaded_bytes)s|total:%(progress.total_bytes_estimate)s|speed:%(progress.speed)s|eta:%(progress.eta)s|pct:%(progress._percent_str)s",
    );
    push_arg(&mut r, "--ffmpeg-location");
    push_arg(&mut r, ffmpeg);
    push_arg(&mut r, "--no-playlist");
    push_arg(&mut r, "--no-mtime");
    push_arg(&mut r, "--no-update");
    push_strs(&mut r, extra_args);
    push_args(&mut r, js_args);
    push_arg(&mut r, url);
    assert(texts(r@) =~= download_args_spec(
        format_id@,
        output_template@,
        ffmpeg@,
        str_texts(extra_args@),
        texts(js_args@),
        url@,
    ));
    r
}

/// The arguments of a metadata query: the JSON dump of one video, no
/// playlist expansion, no certificate check, no self-update, then the
/// JavaScript-runtime arguments and the URL.
pub open spec fn metadata_args_spec(url: Seq<char>, js: Seq<Seq<char>>) -> Seq<Seq<char>> {
    seq!["-J"@, "--no-playlist"@, "--flat-playlist"@, "--no-check-certificate"@, "--no-update"@]
        + js + seq![url]
}

/// Builds the arguments of a metadata query.
pub fn metadata_args(url: &str, js_args: &Vec<String>) -> (r: Vec<String>)
    ensures
        texts(r@) == metadata_args_spec(url@, texts(js_args@)),
{
    let mut r: Vec<String> = Vec::new();
    push_arg(&mut r, "-J");
    push_arg(&mut r, "--no-playlist");
    push_arg(&mut r, "--flat-playlist");
    push_arg(&mut r, "--no-check-certificate");
    push_arg(&mut r, "--no-update");
    push_args(&mut r, js_args);
    push_arg(&mut r, url);
    assert(texts(r@) =~= metadata_args_spec(url@, texts(js_args@)));
    r
}

/// The arguments that ask yt-dlp for the file name a download produced.
pub open spec fn filename_args_spec(
    format_id: Seq<char>,
    output_template: Seq<char>,
    url: Seq<char>,
    js: Seq<Seq<char>>,
) -> Seq<Seq<char>> {
    seq![
        "--get-filename"@,
        "-f"@,
        format_id,
        "-o"@,
        output_template,
        "--no-playlist"@,
        "--no-update"@,
    ] + js + seq![url]
}

/// Builds the arguments of a file name query.
pub fn filename_args(format_id: &str, output_template: &str, url: &str, js_args: &Vec<String>) -> (r:
    Vec<String>)
    ensures
        texts(r@) == filename_args_spec(format_id@, output_template@, url@, texts(js_args@)),
{
    let mut r: Vec<String> = Vec::new();
    push_arg(&mut r, "--get-filename");
    push_arg(&mut r, "-f");
    push_arg(&mut r, format_id);
    push_arg(&mut r, "-o");
    push_arg(&mut r, output_template);
    push_arg(&mut r, "--no-playlist");
    push_arg(&mut r, "--no-update");
    push_args(&mut r, js_args);
    push_arg(&mut r, url);
    assert(texts(r@) =~= filename_args_spec(format_id@, output_template@, url@, texts(js_args@)));
    r
}

/// Every command line handed to yt-dlp (download, metadata query, file
/// name query) ends with the JavaScript-runtime arguments and then the URL.
pub proof fn law_runtime_args_then_url(
    format_id: Seq<char>,
    output_template: Seq<char>,
    ffmpeg: Seq<char>,
    extra: Seq<Seq<char>>,
    js: Seq<Seq<char>>,
    url: Seq<char>,
)
    ensures
        ({
            let a = download_args_spec(format_id, output_template, ffmpeg, extra, js, url);
            a.len() > js.len() && a.subrange(a.len() - js.len() - 1, a.len() as int) == js.push(url)
        }),
        ({
            let a = metadata_args_spec(url, js);
            a.len() > js.len() && a.subrange(a.len() - js.len() - 1, a.len() as int) == js.push(url)
        }),
        ({
            let a = filename_args_spec(format_id, output_template, url, js);
            a.len() > js.len() && a.subrange(a.len() - js.len() - 1, a.len() as int) == js.push(url)
        }),
{
    let a = download_args_spec(format_id, output_template, ffmpeg, extra, js, url);
    assert(a.subrange(a.len() - js.len() - 1, a.len() as int) =~= js.push(url));
    let b = metadata_args_spec(url, js);
    assert(b.subrange(b.len() - js.len() - 1, b.len() as int) =~= js.push(url));
    let c = filename_args_spec(format_id, output_template, url, js);
    assert(c.subrange(c.len() - js.len() - 1, c.len() as int) =~= js.push(url));
}

/// Deno is named as the JavaScript runtime, by its path, exactly when its
/// binary exists.
pub proof fn law_runtime_args(deno: Seq<char>, deno_exists: bool)
    ensures
        deno_exists ==> js_runtime_args_spec(deno, deno_exists) == seq![
            "--js-runtimes"@,
            "deno:"@ + deno,
        ],
        !deno_exists ==> js_runtime_args_spec(deno, deno_exists).len() == 0,
{
}

/// A download run asks for the chosen format and output template, prints
/// its progress in the template that the progress reader reads, uses the
/// given ffmpeg, fetches no playlist, keeps no modification time and does
/// not update yt-dlp; the extra arguments come right before the runtime
/// arguments and the URL.
pub proof fn law_download_args_layout(
    format_id: Seq<char>,
    output_template: Seq<char>,
    ffmpeg: Seq<char>,
    extra: Seq<Seq<char>>,
    js: Seq<Seq<char>>,
    url: Seq<char>,
)
    ensures
        ({
            let a = download_args_spec(format_id, output_template, ffmpeg, extra, js, url);
            let n = a.len() - js.len() - 1;
            &&& a.len() == 13 + extra.len() + js.len()
            &&& a[0] == "-f"@ && a[1] == format_id
            &&& a[2] == "-o"@ && a[3] == output_template
            &&& a[4] == "--newline"@
            &&& a[5] == "--progress-template"@ && a[6] == progress_template_spec()
            &&& a[7] == "--ffmpeg-location"@ && a[8] == ffmpeg
            &&& a[9] == "--no-playlist"@ && a[10] == "--no-mtime"@ && a[11] == "--no-update"@
            &&& a.subrange(n - extra.len(), n) == extra
        }),
{
    let a = download_args_spec(format_id, output_template, ffmpeg, extra, js, url);
    let n = a.len() - js.len() - 1;
    assert(a.subrange(n - extra.len(), n) =~= extra);
}

/// A metadata query asks for the JSON of one video without expanding
/// playlists, without checking certificates and without updating yt-dlp.
pub proof fn law_metadata_args_layout(url: Seq<char>, js: Seq<Seq<char>>)
    ensures
        ({
            let a = metadata_args_spec(url, js);
            &&& a.len() == 6 + js.len()
            &&& a[0] == "-J"@ && a[1] == "--no-playlist"@ && a[2] == "--flat-playlist"@
            &&& a[3] == "--no-check-certificate"@ && a[4] == "--no-update"@
        }),
{
}

/// A file name query asks for the name that the chosen format and output
/// template give, for one video, without updating yt-dlp.
pub proof fn law_filename_args_layout(
    format_id: Seq<char>,
    output_template: Seq<char>,
    url: Seq<char>,
    js: Seq<Seq<char>>,
)
    ensures
        ({
            let a = filename_args_spec(format_id, output_template, url, js);
            &&& a.len() == 8 + js.len()
            &&& a[0] == "--get-filename"@
            &&& a[1] == "-f"@ && a[2] == format_id
            &&& a[3] == "-o"@ && a[4] == output_template
            &&& a[5] == "--no-playlist"@ && a[6] == "--no-update"@
        }),
{
}

/// The output template of a download into `output_dir`: files are named
/// after the video title and the container extension.
pub open spec fn output_template_spec(output_dir: Seq<char>) -> Seq<char> {
    output_dir + "/%(title)s.%(ext)s"@
}

/// Builds the output template of a download into `output_dir`.
pub fn output_template(output_dir: &str) -> (r: String)
    ensures
        r@ == output_template_spec(output_dir@),
{
    let mut v: Vec<char> = Vec::new();
    push_str(&mut v, output_dir);
    push_str(&mut v, "/%(title)s.%(ext)s");
    string_of(&v)
}

} // verus!
