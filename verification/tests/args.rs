use yt_grab::ytdlp_args::{
    filename_args, js_runtime_args, metadata_args, output_template, ytdlp_download_args,
};

const TEMPLATE: &str = "downloaded:%(progress.downloaded_bytes)s|total:%(progress.total_bytes_estimate)s|speed:%(progress.speed)s|eta:%(progress.eta)s|pct:%(progress._percent_str)s";

#[test]
fn js_runtime_args_when_deno_exists() {
    assert_eq!(
        js_runtime_args("/app/bin/deno", true),
        vec!["--js-runtimes".to_string(), "deno:/app/bin/deno".to_string()]
    );
}

#[test]
fn js_runtime_args_when_deno_is_missing() {
    assert!(js_runtime_args("deno", false).is_empty());
}

#[test]
fn download_args_first_attempt() {
    let args = ytdlp_download_args("22", "/out/%(title)s.%(ext)s", "/usr/bin/ffmpeg", &[], &vec![], "https://youtu.be/x");
    assert_eq!(
        args,
        vec![
            "-f", "22", "-o", "/out/%(title)s.%(ext)s", "--newline", "--progress-template", TEMPLATE,
            "--ffmpeg-location", "/usr/bin/ffmpeg", "--no-playlist", "--no-mtime", "--no-update",
            "https://youtu.be/x",
        ]
    );
}

#[test]
fn download_args_with_extra_and_js_args() {
    let js = js_runtime_args("/d/deno", true);
    let args = ytdlp_download_args(
        "137+140",
        "t",
        "ff",
        &["--extractor-args", "youtube:player_client=web_embedded"],
        &js,
        "u",
    );
    assert_eq!(args.len(), 17);
    assert_eq!(&args[12..], &["--extractor-args", "youtube:player_client=web_embedded", "--js-runtimes", "deno:/d/deno", "u"]);
    assert_eq!(args[1], "137+140");
}

#[test]
fn metadata_query_args() {
    let js = js_runtime_args("/d/deno", true);
    assert_eq!(
        metadata_args("https://youtu.be/x", &js),
        vec!["-J", "--no-playlist", "--flat-playlist", "--no-check-certificate", "--no-update", "--js-runtimes", "deno:/d/deno", "https://youtu.be/x"]
    );
    assert_eq!(
        metadata_args("u", &vec![]),
        vec!["-J", "--no-playlist", "--flat-playlist", "--no-check-certificate", "--no-update", "u"]
    );
}

#[test]
fn filename_query_args() {
    assert_eq!(
        filename_args("18", "/o/%(title)s.%(ext)s", "u", &vec![]),
        vec!["--get-filename", "-f", "18", "-o", "/o/%(title)s.%(ext)s", "--no-playlist", "--no-update", "u"]
    );
}

#[test]
fn output_template_in_directory() {
    assert_eq!(output_template("/home/u/Downloads"), "/home/u/Downloads/%(title)s.%(ext)s");
    assert_eq!(output_template(""), "/%(title)s.%(ext)s");
}
