use yt_grab::progress::{format_duration, parse_progress_line, ProgressFields};

fn parse(line: &str) -> Option<ProgressFields> {
    parse_progress_line(line)
}

#[test]
fn full_progress_line() {
    let f = parse("downloaded:1024|total:2048|speed:512.5|eta:2|pct: 50.0%").unwrap();
    assert_eq!(f.downloaded, 1024);
    assert_eq!(f.total, Some(2048));
    assert_eq!(f.speed.as_deref(), Some("512.5"));
    assert_eq!(f.eta.as_deref(), Some("2"));
    assert_eq!(f.pct.as_deref(), Some("50.0"));
}

#[test]
fn unknown_values_from_ytdlp() {
    let f = parse("downloaded:4096|total:NA|speed:NA|eta:NA|pct:  0.0%").unwrap();
    assert_eq!(f.downloaded, 4096);
    assert_eq!(f.total, None);
    assert_eq!(f.speed.as_deref(), Some("NA"));
    assert_eq!(f.pct.as_deref(), Some("0.0"));
}

#[test]
fn downloaded_must_be_a_byte_count() {
    assert!(parse("downloaded:NA|total:10").is_none());
    assert!(parse("downloaded:-7").is_none());
    assert!(parse("downloaded:").is_none());
    assert!(parse("downloaded:+").is_none());
    assert!(parse("downloaded: 7").is_none());
    assert!(parse("total:10|speed:1").is_none());
}

#[test]
fn plus_sign_and_leading_zeros_are_accepted() {
    assert_eq!(parse("downloaded:+7").unwrap().downloaded, 7);
    assert_eq!(parse("downloaded:007").unwrap().downloaded, 7);
}

#[test]
fn byte_count_limits() {
    assert_eq!(parse("downloaded:18446744073709551615").unwrap().downloaded, u64::MAX);
    assert!(parse("downloaded:18446744073709551616").is_none());
    assert!(parse("downloaded:99999999999999999999999").is_none());
}

#[test]
fn every_piece_needs_a_colon() {
    assert!(parse("").is_none());
    assert!(parse("[download] 10% of 5MiB").is_none());
    assert!(parse("downloaded:5|").is_none());
    assert!(parse("downloaded:5|junk").is_none());
}

#[test]
fn later_pieces_override_earlier_ones() {
    let f = parse("downloaded:1|total:9|downloaded:2|total:NA").unwrap();
    assert_eq!(f.downloaded, 2);
    assert_eq!(f.total, None);
    assert!(parse("downloaded:1|downloaded:x").is_none());
}

#[test]
fn values_keep_colons_after_the_first() {
    let f = parse("downloaded:5|eta:1:02|extra:a:b").unwrap();
    assert_eq!(f.eta.as_deref(), Some("1:02"));
}

#[test]
fn percentage_is_trimmed_and_loses_trailing_percent_signs() {
    let f = parse("downloaded:5|pct: \t 12.5%% ").unwrap();
    assert_eq!(f.pct.as_deref(), Some("12.5"));
    let g = parse("downloaded:5|pct:100%").unwrap();
    assert_eq!(g.pct.as_deref(), Some("100"));
    let h = parse("downloaded:5").unwrap();
    assert_eq!(h.pct, None);
    assert_eq!(h.speed, None);
    assert_eq!(h.eta, None);
    assert_eq!(h.total, None);
}

#[test]
fn unicode_white_space_is_trimmed_from_percentage() {
    let f = parse("downloaded:5|pct:\u{a0}7%\u{3000}").unwrap();
    assert_eq!(f.pct.as_deref(), Some("7"));
}

#[test]
fn durations_below_a_minute() {
    assert_eq!(format_duration(0), "0s");
    assert_eq!(format_duration(7), "7s");
    assert_eq!(format_duration(59), "59s");
}

#[test]
fn durations_below_an_hour() {
    assert_eq!(format_duration(60), "1:00");
    assert_eq!(format_duration(61), "1:01");
    assert_eq!(format_duration(605), "10:05");
    assert_eq!(format_duration(3599), "59:59");
}

#[test]
fn durations_from_an_hour() {
    assert_eq!(format_duration(3600), "1:00:00");
    assert_eq!(format_duration(3661), "1:01:01");
    assert_eq!(format_duration(90061), "25:01:01");
    assert_eq!(format_duration(u64::MAX), "5124095576030431:00:15");
}

#[test]
fn counts_printed_by_std_are_read() {
    for n in [0u64, 9, 10, 99, 100, 12345, u64::MAX] {
        let line = format!("downloaded:{}", n);
        assert_eq!(parse(&line).unwrap().downloaded, n);
    }
}

fn read_back(t: &str) -> u64 {
    if let Some(n) = t.strip_suffix('s') {
        return n.parse::<u64>().unwrap();
    }
    let f: Vec<u64> = t.split(':').map(|x| x.parse::<u64>().unwrap()).collect();
    match f.len() {
        2 => f[0] * 60 + f[1],
        3 => f[0] * 3600 + f[1] * 60 + f[2],
        _ => panic!("unexpected duration text {t}"),
    }
}

#[test]
fn durations_read_back_to_their_seconds() {
    for s in (0..10_000u64).chain([86_399, 86_400, 359_999, 360_000, 1_000_000_007, u64::MAX]) {
        assert_eq!(read_back(&format_duration(s)), s, "{s}");
    }
    let mut seen = std::collections::HashSet::new();
    for s in 0..20_000u64 {
        assert!(seen.insert(format_duration(s)));
    }
}
