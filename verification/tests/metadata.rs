use yt_grab::metadata::{
    metadata_header, query_error, read_metadata, select_formats, summarize_format, RawFormat,
    RawHeader,
};

fn s(x: &str) -> Option<String> {
    Some(x.to_string())
}

fn raw(note: Option<String>, vcodec: Option<String>, acodec: Option<String>) -> RawFormat {
    RawFormat {
        format_id: s("18"),
        ext: s("mp4"),
        resolution: s("640x360"),
        vcodec,
        acodec,
        format_note: note,
        filesize: Some(1000),
    }
}

#[test]
fn header_defaults() {
    let h = metadata_header(&RawHeader { id: None, title: None, thumbnail: None, webpage_url: None }, "https://youtu.be/x");
    assert_eq!((h.id.as_str(), h.title.as_str(), h.thumbnail.as_str(), h.webpage_url.as_str()), ("", "Unknown", "", "https://youtu.be/x"));
    let g = metadata_header(&RawHeader { id: s("abc"), title: s("T"), thumbnail: s("th"), webpage_url: s("w") }, "u");
    assert_eq!((g.id.as_str(), g.title.as_str(), g.thumbnail.as_str(), g.webpage_url.as_str()), ("abc", "T", "th", "w"));
}

#[test]
fn format_summary() {
    let f = summarize_format(&raw(s("360p"), s("avc1"), s("mp4a"))).unwrap();
    assert_eq!(f.format_id, "18");
    assert!(f.has_audio && f.has_video);
    assert_eq!(f.format_note, "360p");
    assert_eq!(f.filesize, Some(1000));
    let audio = summarize_format(&raw(None, s("none"), s("opus"))).unwrap();
    assert!(audio.has_audio && !audio.has_video);
    assert_eq!(audio.format_note, "");
    let missing = summarize_format(&RawFormat { format_id: None, ext: None, resolution: None, vcodec: None, acodec: None, format_note: None, filesize: None }).unwrap();
    assert_eq!((missing.format_id.as_str(), missing.ext.as_str(), missing.resolution.as_str(), missing.vcodec.as_str(), missing.acodec.as_str()), ("", "?", "?", "none", "none"));
    assert!(!missing.has_audio && !missing.has_video);
}

#[test]
fn storyboards_and_hls_are_hidden() {
    assert!(summarize_format(&raw(s("storyboard"), s("none"), s("none"))).is_none());
    assert!(summarize_format(&raw(s("720p (m3u8)"), s("avc1"), s("mp4a"))).is_none());
    assert!(summarize_format(&raw(s("Storyboard"), s("none"), s("none"))).is_some());
    assert!(summarize_format(&raw(s("storyboards"), s("none"), s("none"))).is_some());
}

#[test]
fn selected_formats_keep_order_and_positions() {
    let list = vec![
        raw(s("storyboard"), s("none"), s("none")),
        raw(s("360p"), s("avc1"), s("mp4a")),
        raw(s("m3u8"), s("avc1"), s("mp4a")),
        raw(s("audio"), s("none"), s("opus")),
    ];
    let shown = select_formats(&Some(list));
    let positions: Vec<usize> = shown.iter().map(|p| p.0).collect();
    assert_eq!(positions, vec![1, 3]);
    assert_eq!(shown[1].1.format_note, "audio");
    assert!(select_formats(&None).is_empty());
    assert!(select_formats(&Some(vec![])).is_empty());
}

#[test]
fn refused_query_message() {
    assert_eq!(query_error("ERROR: bad URL"), "yt-dlp error: ERROR: bad URL");
}

#[test]
fn metadata_from_json() {
    let json = br#"{"id":"abc","title":"A video","duration":12.5,"thumbnail":"t.jpg",
        "webpage_url":"https://www.youtube.com/watch?v=abc",
        "formats":[
            {"format_id":"sb0","format_note":"storyboard","vcodec":"none","acodec":"none"},
            {"format_id":"18","ext":"mp4","resolution":"640x360","vcodec":"avc1","acodec":"mp4a","format_note":"360p","filesize":1234,"fps":30.0},
            {"format_id":"251","ext":"webm","resolution":"audio only","vcodec":"none","acodec":"opus","filesize":"big"}
        ]}"#;
    let (h, formats) = read_metadata(json, "https://youtu.be/abc").unwrap();
    assert_eq!((h.id.as_str(), h.title.as_str(), h.thumbnail.as_str()), ("abc", "A video", "t.jpg"));
    assert_eq!(h.webpage_url, "https://www.youtube.com/watch?v=abc");
    let positions: Vec<usize> = formats.iter().map(|p| p.0).collect();
    assert_eq!(positions, vec![1, 2]);
    assert_eq!(formats[0].1.filesize, Some(1234));
    assert!(formats[0].1.has_video && formats[0].1.has_audio);
    assert_eq!(formats[1].1.filesize, None);
    assert!(!formats[1].1.has_video);
    assert_eq!(formats[1].1.format_note, "");
}

#[test]
fn metadata_defaults_from_json() {
    let (h, formats) = read_metadata(br#"{"title":7,"formats":"none"}"#, "u").unwrap();
    assert_eq!((h.id.as_str(), h.title.as_str(), h.webpage_url.as_str()), ("", "Unknown", "u"));
    assert!(formats.is_empty());
    let (_, none) = read_metadata(b"[1,2]", "u").unwrap();
    assert!(none.is_empty());
}

#[test]
fn invalid_json_is_an_error() {
    let e = match read_metadata(b"ERROR: not json", "u") {
        Err(e) => e,
        Ok(_) => panic!("expected an error"),
    };
    assert!(e.starts_with("Failed to parse metadata JSON: "));
    assert!(e.len() > "Failed to parse metadata JSON: ".len());
    let expected = serde_json::from_slice::<serde_json::Value>(b"ERROR: not json").unwrap_err().to_string();
    assert_eq!(e, format!("Failed to parse metadata JSON: {}", expected));
}
