use yt_grab::host::{
    binaries_report, binary_candidates, bundled_candidates, deno_staging, deno_target, download_dir,
    downloads_candidate, find_binary, find_bundled_ytdlp, reveal_command, search_path_prefix, user_bin_dir,
    user_bin_path, user_exe_name, HostEnv, HostPath, Platform,
};

fn env(platform: Platform) -> HostEnv {
    HostEnv {
        platform,
        home: Some("/home/u".to_string()),
        appdata: Some("C:\\Users\\u\\AppData\\Roaming".to_string()),
        homebrew_prefix: None,
        yt_dlp_path: None,
        ffmpeg_path: None,
        bin_path: None,
        exe_dir: Some("/Applications/YT Grab.app/Contents/MacOS".to_string()),
        exe_grandparent: Some("/Applications/YT Grab.app/Contents".to_string()),
    }
}

fn show(p: &HostPath) -> (String, Vec<String>) {
    (p.base.clone(), p.parts.clone())
}

fn path(base: &str, parts: &[&str]) -> (String, Vec<String>) {
    (base.to_string(), parts.iter().map(|s| s.to_string()).collect())
}

#[test]
fn exe_names() {
    assert_eq!(user_exe_name(Platform::Windows, "yt-dlp"), "yt-dlp.exe");
    assert_eq!(user_exe_name(Platform::MacOs, "yt-dlp"), "yt-dlp");
    assert_eq!(user_exe_name(Platform::Linux, "deno"), "deno");
}

#[test]
fn user_bin_dirs() {
    let mac = user_bin_dir(&env(Platform::MacOs)).unwrap();
    assert_eq!(show(&mac), path("/home/u", &["Library/Application Support", "com.ytgrab.desktop", "bin"]));
    let win = user_bin_dir(&env(Platform::Windows)).unwrap();
    assert_eq!(show(&win), path("C:\\Users\\u\\AppData\\Roaming", &["com.ytgrab.desktop", "bin"]));
    let lin = user_bin_dir(&env(Platform::Linux)).unwrap();
    assert_eq!(show(&lin), path("/home/u", &[".local/share", "com.ytgrab.desktop", "bin"]));
    let mut no_home = env(Platform::Linux);
    no_home.home = None;
    assert!(user_bin_dir(&no_home).is_none());
    let mut no_appdata = env(Platform::Windows);
    no_appdata.appdata = None;
    assert!(user_bin_dir(&no_appdata).is_none());
}

#[test]
fn user_bin_paths() {
    let win = user_bin_path(&env(Platform::Windows), "yt-dlp").unwrap();
    assert_eq!(show(&win), path("C:\\Users\\u\\AppData\\Roaming", &["com.ytgrab.desktop", "bin", "yt-dlp.exe"]));
    let lin = user_bin_path(&env(Platform::OtherUnix), "deno").unwrap();
    assert_eq!(show(&lin), path("/home/u", &[".local/share", "com.ytgrab.desktop", "bin", "deno"]));
}

#[test]
fn bundled_candidates_for_ytdlp() {
    let c: Vec<_> = bundled_candidates(&env(Platform::MacOs), "yt-dlp").iter().map(show).collect();
    assert_eq!(
        c,
        vec![
            path("/Applications/YT Grab.app/Contents/MacOS", &["binaries", "yt-dlp"]),
            path("/Applications/YT Grab.app/Contents/MacOS", &["binaries", "yt-dlp_macos"]),
            path("/Applications/YT Grab.app/Contents", &["Resources", "binaries", "yt-dlp"]),
            path("/Applications/YT Grab.app/Contents", &["Resources", "binaries", "yt-dlp_macos"]),
        ]
    );
    let mut e = env(Platform::Windows);
    e.exe_grandparent = None;
    let d: Vec<_> = bundled_candidates(&e, "ffmpeg").iter().map(show).collect();
    assert_eq!(d, vec![path("/Applications/YT Grab.app/Contents/MacOS", &["binaries", "ffmpeg.exe"])]);
    e.exe_dir = None;
    assert!(bundled_candidates(&e, "ffmpeg").is_empty());
}

#[test]
fn bundled_ytdlp_is_first_existing_candidate() {
    let e = env(Platform::MacOs);
    assert!(find_bundled_ytdlp(&e, &[]).is_none());
    assert!(find_bundled_ytdlp(&e, &[false, false, false, false]).is_none());
    let p = find_bundled_ytdlp(&e, &[false, true, true]).unwrap();
    assert_eq!(show(&p), path("/Applications/YT Grab.app/Contents/MacOS", &["binaries", "yt-dlp_macos"]));
    let q = find_bundled_ytdlp(&e, &[false, false, false, true]).unwrap();
    assert_eq!(show(&q), path("/Applications/YT Grab.app/Contents", &["Resources", "binaries", "yt-dlp_macos"]));
}

#[test]
fn binary_candidates_in_order() {
    let mut e = env(Platform::MacOs);
    e.yt_dlp_path = Some("/custom/yt-dlp".to_string());
    e.homebrew_prefix = Some("/opt/hb".to_string());
    let c: Vec<_> = binary_candidates(&e, "yt-dlp").iter().map(show).collect();
    assert_eq!(c.len(), 12);
    assert_eq!(c[0], path("/custom/yt-dlp", &[]));
    assert_eq!(c[1], path("/home/u", &["Library/Application Support", "com.ytgrab.desktop", "bin", "yt-dlp"]));
    assert_eq!(c[6], path("/opt/homebrew/bin/yt-dlp", &[]));
    assert_eq!(c[9], path("/usr/bin/yt-dlp", &[]));
    assert_eq!(c[10], path("/home/u/.local/bin/yt-dlp", &[]));
    assert_eq!(c[11], path("/opt/hb/bin/yt-dlp", &[]));
}

#[test]
fn ffmpeg_has_no_user_copy() {
    let mut e = env(Platform::Linux);
    e.exe_dir = None;
    e.ffmpeg_path = Some("/f".to_string());
    e.yt_dlp_path = Some("/y".to_string());
    let c: Vec<_> = binary_candidates(&e, "ffmpeg").iter().map(show).collect();
    assert_eq!(
        c,
        vec![
            path("/f", &[]),
            path("/opt/homebrew/bin/ffmpeg", &[]),
            path("/usr/local/bin/ffmpeg", &[]),
            path("/opt/local/bin/ffmpeg", &[]),
            path("/usr/bin/ffmpeg", &[]),
            path("/home/u/.local/bin/ffmpeg", &[]),
        ]
    );
}

#[test]
fn homebrew_prefix_needs_home() {
    let mut e = env(Platform::Linux);
    e.exe_dir = None;
    e.home = None;
    e.homebrew_prefix = Some("/opt/hb".to_string());
    let c = binary_candidates(&e, "ffmpeg");
    assert_eq!(c.len(), 4);
}

#[test]
fn other_programs_use_the_generic_variable() {
    let mut e = env(Platform::Linux);
    e.exe_dir = None;
    e.home = None;
    e.bin_path = Some("/any".to_string());
    let c: Vec<_> = binary_candidates(&e, "deno").iter().map(show).collect();
    assert_eq!(c[0], path("/any", &[]));
    assert_eq!(c.len(), 5);
}

#[test]
fn find_binary_prefers_first_existing() {
    let mut e = env(Platform::Linux);
    e.exe_dir = None;
    let none = find_binary(&e, "ffmpeg", &[]);
    assert_eq!(show(&none), path("ffmpeg", &[]));
    let usr = find_binary(&e, "ffmpeg", &[false, true, true]);
    assert_eq!(show(&usr), path("/usr/local/bin/ffmpeg", &[]));
    let home = find_binary(&e, "ffmpeg", &[false, false, false, false, true]);
    assert_eq!(show(&home), path("/home/u/.local/bin/ffmpeg", &[]));
}

#[test]
fn search_path_prefixes() {
    assert_eq!(search_path_prefix(Platform::Linux, false, Some("/app/binaries")).as_deref(), Some("/app/binaries:"));
    assert_eq!(search_path_prefix(Platform::Windows, false, Some("C:\\app")).as_deref(), Some("C:\\app;"));
    assert_eq!(search_path_prefix(Platform::MacOs, true, Some("/u/bin")), None);
    assert_eq!(search_path_prefix(Platform::MacOs, false, Some("")), None);
    assert_eq!(search_path_prefix(Platform::MacOs, false, None), None);
}

#[test]
fn reveal_commands() {
    let m = reveal_command(Platform::MacOs, "/o/v.mp4", Some("/o")).unwrap();
    assert_eq!((m.program.as_str(), m.args.clone()), ("open", vec!["-R".to_string(), "/o/v.mp4".to_string()]));
    let w = reveal_command(Platform::Windows, "C:\\o\\v.mp4", Some("C:\\o")).unwrap();
    assert_eq!((w.program.as_str(), w.args.clone()), ("explorer", vec!["/select,".to_string(), "C:\\o\\v.mp4".to_string()]));
    let l = reveal_command(Platform::Linux, "/o/v.mp4", Some("/o")).unwrap();
    assert_eq!((l.program.as_str(), l.args.clone()), ("xdg-open", vec!["/o".to_string()]));
    assert!(reveal_command(Platform::Linux, "/", None).is_none());
    assert!(reveal_command(Platform::OtherUnix, "/o/v.mp4", Some("/o")).is_none());
}

#[test]
fn binaries_report_success() {
    assert_eq!(
        binaries_report("/u/bin/yt-dlp", true, "/usr/bin/ffmpeg", true, Some("2025.06.30")),
        Ok("yt-dlp: /u/bin/yt-dlp (2025.06.30)\nffmpeg: /usr/bin/ffmpeg".to_string())
    );
    assert_eq!(
        binaries_report("/b/yt-dlp_macos", false, "C:\\ffmpeg.exe", false, None),
        Ok("yt-dlp: /b/yt-dlp_macos\nffmpeg: C:\\ffmpeg.exe".to_string())
    );
}

#[test]
fn binaries_report_missing_programs() {
    let yt = binaries_report("yt-dlp", false, "ffmpeg", false, None).unwrap_err();
    assert_eq!(yt, "yt-dlp not found. The app needs yt-dlp to download videos.\n\nExpected locations:\n- Bundled in the app (binaries/yt-dlp)\n- /opt/homebrew/bin/yt-dlp\n- /usr/local/bin/yt-dlp\n\nInstall with: brew install yt-dlp");
    let ff = binaries_report("yt-dlp", true, "ffmpeg", false, None).unwrap_err();
    assert_eq!(ff, "ffmpeg not found. The app needs ffmpeg to merge video and audio.\n\nExpected locations:\n- Bundled in the app (binaries/ffmpeg)\n- /opt/homebrew/bin/ffmpeg\n- /usr/local/bin/ffmpeg\n\nInstall with: brew install ffmpeg");
}

#[test]
fn download_dirs() {
    assert_eq!(downloads_candidate("/home/u"), "/home/u/Downloads");
    assert_eq!(download_dir(Some("/x"), Some("/home/u"), false), Ok("/x".to_string()));
    assert_eq!(download_dir(None, Some("/home/u"), true), Ok("/home/u/Downloads".to_string()));
    assert_eq!(download_dir(None, Some("/home/u"), false), Err("Could not determine downloads directory".to_string()));
    assert_eq!(download_dir(None, None, true), Err("Could not determine downloads directory".to_string()));
}

#[test]
fn existing_variable_path_wins() {
    let mut e = env(Platform::MacOs);
    e.yt_dlp_path = Some("/custom/yt-dlp".to_string());
    let all_present = vec![true; 12];
    assert_eq!(show(&find_binary(&e, "yt-dlp", &all_present)), path("/custom/yt-dlp", &[]));
    let mut later = all_present.clone();
    later[0] = false;
    assert_eq!(
        show(&find_binary(&e, "yt-dlp", &later)),
        path("/home/u", &["Library/Application Support", "com.ytgrab.desktop", "bin", "yt-dlp"])
    );
}

#[test]
fn deno_target_paths() {
    let d = "/home/u/.local/share/com.ytgrab.desktop/bin";
    assert_eq!(show(&deno_target(Platform::Linux, d)), path(d, &["deno"]));
    assert_eq!(show(&deno_target(Platform::Windows, "C:\\bin")), path("C:\\bin", &["deno.exe"]));
}

#[test]
fn deno_is_staged_only_when_bundled_and_missing() {
    let e = env(Platform::MacOs);
    let d = "/home/u/bin";
    // The first bundled candidate of deno is missing, the second exists.
    let (from, to) = deno_staging(&e, d, &[false, true], false).unwrap();
    assert_eq!(show(&from), path("/Applications/YT Grab.app/Contents", &["Resources", "binaries", "deno"]));
    assert_eq!(show(&to), path(d, &["deno"]));
    let (first, _) = deno_staging(&e, d, &[true, true], false).unwrap();
    assert_eq!(show(&first), path("/Applications/YT Grab.app/Contents/MacOS", &["binaries", "deno"]));
    // Already there: nothing is copied.
    assert!(deno_staging(&e, d, &[true, true], true).is_none());
    // No bundled copy: nothing is copied.
    assert!(deno_staging(&e, d, &[false, false], false).is_none());
    assert!(deno_staging(&e, d, &[], false).is_none());
}
