//! Where the helper programs (yt-dlp, ffmpeg, Deno) are looked for, and the
//! other decisions that depend on the operating system and its environment.
//!
//! The environment is read by the caller into a [`HostEnv`]; whether a
//! file exists is asked by the caller for each candidate path and handed in
//! as a list of flags.
use vstd::prelude::*;
use crate::text::{chars_of, ends_with_seq, ends_with_str, owned, push_str, string_of};

verus! {

/// The operating systems the application distinguishes.
#[derive(Clone, Copy, Debug, PartialEq, Eq, Structural)]
pub enum Platform {
    MacOs,
    Windows,
    Linux,
    /// Any other Unix-like system.
    OtherUnix,
}

/// What the lookups read from the environment of the running process.
pub struct HostEnv {
    pub platform: Platform,
    /// `HOME`.
    pub home: Option<String>,
    /// `APPDATA`.
    pub appdata: Option<String>,
    /// `HOMEBREW_PREFIX`.
    pub homebrew_prefix: Option<String>,
    /// `YT_DLP_PATH`.
    pub yt_dlp_path: Option<String>,
    /// `FFMPEG_PATH`.
    pub ffmpeg_path: Option<String>,
    /// `YT_GRAB_BIN_PATH`.
    pub bin_path: Option<String>,
    /// The directory of the running executable.
    pub exe_dir: Option<String>,
    /// The parent of that directory.
    pub exe_grandparent: Option<String>,
}

/// A path given as a base followed by components joined onto it one by one
/// with the platform's path joining (`Path::join`).
pub struct HostPath {
    pub base: String,
    pub parts: Vec<String>,
}

/// The mathematical content of a [`HostPath`].
pub struct PathView {
    pub base: Seq<char>,
    pub parts: Seq<Seq<char>>,
}

/// The characters of each string in a sequence of strings.
pub open spec fn part_texts(v: Seq<String>) -> Seq<Seq<char>> {
    v.map_values(|s: String| s@)
}

impl View for HostPath {
    type V = PathView;

    open spec fn view(&self) -> PathView {
        PathView { base: self.base@, parts: part_texts(self.parts@) }
    }
}

/// A path given by its text, with nothing joined onto it.
pub open spec fn plain(s: Seq<char>) -> PathView {
    PathView { base: s, parts: Seq::empty() }
}

/// `p` with `part` joined onto it.
pub open spec fn joined(p: PathView, part: Seq<char>) -> PathView {
    PathView { base: p.base, parts: p.parts.push(part) }
}

impl HostPath {
    /// The path whose text is `s`.
    pub fn plain(s: &str) -> (r: HostPath)
        ensures
            r@ == plain(s@),
    {
        let r = HostPath { base: owned(s), parts: Vec::new() };
        assert(r@.parts =~= Seq::<Seq<char>>::empty());
        r
    }

    /// Joins `part` onto the path.
    pub fn join(self, part: &str) -> (r: HostPath)
        ensures
            r@ == joined(self@, part@),
    {
        let HostPath { base, mut parts } = self;
        let ghost before = parts@;
        parts.push(owned(part));
        let r = HostPath { base, parts };
        assert(r@.parts =~= part_texts(before).push(part@));
        r
    }
}

/// The directory name of the application's own data.
pub open spec fn app_identifier() -> Seq<char> {
    "com.ytgrab.desktop"@
}

/// The file name of program `name`: with `.exe` on Windows.
pub open spec fn exe_name_spec(platform: Platform, name: Seq<char>) -> Seq<char> {
    if platform == Platform::Windows {
        name + ".exe"@
    } else {
        name
    }
}

/// The file name of program `name` on `platform`.
pub fn user_exe_name(platform: Platform, name: &str) -> (r: String)
    ensures
        r@ == exe_name_spec(platform, name@),
{
    if platform == Platform::Windows {
        let mut v = chars_of(name);
        push_str(&mut v, ".exe");
        string_of(&v)
    } else {
        owned(name)
    }
}

/// The per-user directory where the application keeps its own copies of
/// yt-dlp and Deno: under `~/Library/Application Support` on macOS, under
/// `%APPDATA%` on Windows, under `~/.local/share` elsewhere; none when the
/// variable it starts from is not set.
pub open spec fn user_bin_dir_spec(env: HostEnv) -> Option<PathView> {
    match env.platform {
        Platform::MacOs => match env.home {
            Some(h) => Some(
                joined(
                    joined(joined(plain(h@), "Library/Application Support"@), app_identifier()),
                    "bin"@,
                ),
            ),
            None => None,
        },
        Platform::Windows => match env.appdata {
            Some(a) => Some(joined(joined(plain(a@), app_identifier()), "bin"@)),
            None => None,
        },
        _ => match env.home {
            Some(h) => Some(
                joined(joined(joined(plain(h@), ".local/share"@), app_identifier()), "bin"@),
            ),
            None => None,
        },
    }
}

/// The per-user directory of the application's own binaries.
pub fn user_bin_dir(env: &HostEnv) -> (r: Option<HostPath>)
    ensures
        match r {
            Some(p) => user_bin_dir_spec(*env) == Some(p@),
            None => user_bin_dir_spec(*env) is None,
        },
{
    match env.platform {
        Platform::MacOs => match &env.home {
            Some(h) => Some(
                HostPath::plain(h.as_str()).join("Library/Application Support").join(
                    "com.ytgrab.desktop",
                ).join("bin"),
            ),
            None => None,
        },
        Platform::Windows => match &env.appdata {
            Some(a) => Some(HostPath::plain(a.as_str()).join("com.ytgrab.desktop").join("bin")),
            None => None,
        },
        _ => match &env.home {
            Some(h) => Some(
                HostPath::plain(h.as_str()).join(".local/share").join("com.ytgrab.desktop").join(
                    "bin",
                ),
            ),
            None => None,
        },
    }
}

/// The per-user copy of program `name`.
pub open spec fn user_bin_path_spec(env: HostEnv, name: Seq<char>) -> Option<PathView> {
    match user_bin_dir_spec(env) {
        Some(d) => Some(joined(d, exe_name_spec(env.platform, name))),
        None => None,
    }
}

/// The per-user copy of program `name`.
pub fn user_bin_path(env: &HostEnv, name: &str) -> (r: Option<HostPath>)
    ensures
        match r {
            Some(p) => user_bin_path_spec(*env, name@) == Some(p@),
            None => user_bin_path_spec(*env, name@) is None,
        },
{
    match user_bin_dir(env) {
        Some(d) => {
            let exe = user_exe_name(env.platform, name);
            Some(d.join(exe.as_str()))
        },
        None => None,
    }
}

/// The file names a bundled copy of `name` may have: its executable name,
/// and for yt-dlp also the name of the macOS build.
pub open spec fn bundled_names(platform: Platform, name: Seq<char>) -> Seq<Seq<char>> {
    if name == "yt-dlp"@ {
        seq![exe_name_spec(platform, name), "yt-dlp_macos"@]
    } else {
        seq![exe_name_spec(platform, name)]
    }
}

/// The bundled-binary directories: `binaries` next to the executable, then
/// `Resources/binaries` in the executable's parent directory.
pub open spec fn bundled_roots(env: HostEnv) -> Seq<PathView> {
    match env.exe_dir {
        None => Seq::empty(),
        Some(d) => {
            let first = joined(plain(d@), "binaries"@);
            match env.exe_grandparent {
                Some(g) => seq![first, joined(joined(plain(g@), "Resources"@), "binaries"@)],
                None => seq![first],
            }
        },
    }
}

/// Each name of `names` in directory `root`.
pub open spec fn in_root(root: PathView, names: Seq<Seq<char>>) -> Seq<PathView> {
    names.map_values(|n: Seq<char>| joined(root, n))
}

/// The paths where a bundled copy of `name` is looked for, in order: every
/// file name in the first root, then every file name in the second.
pub open spec fn bundled_candidates_spec(env: HostEnv, name: Seq<char>) -> Seq<PathView> {
    let roots = bundled_roots(env);
    let names = bundled_names(env.platform, name);
    if roots.len() == 0 {
        Seq::empty()
    } else if roots.len() == 1 {
        in_root(roots[0], names)
    } else {
        in_root(roots[0], names) + in_root(roots[1], names)
    }
}

/// The views of a sequence of paths.
pub open spec fn path_views(v: Seq<HostPath>) -> Seq<PathView> {
    v.map_values(|p: HostPath| p@)
}

/// Appends a path to a list of paths.
fn push_path(v: &mut Vec<HostPath>, p: HostPath)
    ensures
        path_views(final(v)@) == path_views(old(v)@).push(p@),
{
    let ghost pv = p@;
    v.push(p);
    assert(path_views(final(v)@) =~= path_views(old(v)@).push(pv));
}

/// Appends, for each bundled file name of `name`, that name in `root`.
fn push_in_root(v: &mut Vec<HostPath>, root: &str, sub: Option<&str>, platform: Platform, name: &str)
    ensures
        path_views(final(v)@) == path_views(old(v)@) + in_root(
            match sub {
                Some(s) => joined(joined(plain(root@), s@), "binaries"@),
                None => joined(plain(root@), "binaries"@),
            },
            bundled_names(platform, name@),
        ),
{
    let ghost r = match sub {
        Some(s) => joined(joined(plain(root@), s@), "binaries"@),
        None => joined(plain(root@), "binaries"@),
    };
    let exe = user_exe_name(platform, name);
    let base = match sub {
        Some(s) => HostPath::plain(root).join(s),
        None => HostPath::plain(root),
    };
    let first = base.join("binaries").join(exe.as_str());
    push_path(v, first);
    if crate::text::str_eq(name, "yt-dlp") {
        let base2 = match sub {
            Some(s) => HostPath::plain(root).join(s),
            None => HostPath::plain(root),
        };
        let second = base2.join("binaries").join("yt-dlp_macos");
        push_path(v, second);
    }
    assert(path_views(v@) =~= path_views(old(v)@) + in_root(r, bundled_names(platform, name@)));
}

/// The paths where a bundled copy of `name` is looked for.
pub fn bundled_candidates(env: &HostEnv, name: &str) -> (r: Vec<HostPath>)
    ensures
        path_views(r@) == bundled_candidates_spec(*env, name@),
{
    let mut v: Vec<HostPath> = Vec::new();
    match &env.exe_dir {
        None => {
            assert(path_views(v@) =~= bundled_candidates_spec(*env, name@));
        },
        Some(d) => {
            push_in_root(&mut v, d.as_str(), None, env.platform, name);
            match &env.exe_grandparent {
                Some(g) => {
                    push_in_root(&mut v, g.as_str(), Some("Resources"), env.platform, name);
                },
                None => {},
            }
            assert(path_views(v@) =~= bundled_candidates_spec(*env, name@));
        },
    }
    v
}

/// The first of `cands`, from position `i` on, whose flag in `present` is
/// set (a missing flag counts as unset).
pub open spec fn first_present(cands: Seq<PathView>, present: Seq<bool>, i: int) -> Option<PathView>
    decreases cands.len() - i,
{
    if i < 0 || i >= cands.len() {
        None
    } else if i < present.len() && present[i] {
        Some(cands[i])
    } else {
        first_present(cands, present, i + 1)
    }
}

/// The first candidate whose flag is set.
fn pick_present(cands: Vec<HostPath>, present: &[bool]) -> (r: Option<HostPath>)
    ensures
        match r {
            Some(p) => first_present(path_views(cands@), present@, 0) == Some(p@),
            None => first_present(path_views(cands@), present@, 0) is None,
        },
{
    let ghost all = path_views(cands@);
    let mut i: usize = 0;
    while i < cands.len()
        invariant
            i <= cands@.len(),
            all == path_views(cands@),
            first_present(all, present@, 0) == first_present(all, present@, i as int),
        decreases cands@.len() - i,
    {
        if i < present.len() && present[i] {
            let mut cands = cands;
            let p = cands.swap_remove(i);
            return Some(p);
        }
        i = i + 1;
    }
    None
}

/// The bundled copy of `name`, given which of [`bundled_candidates`] exist.
pub fn bundled_binary_path(env: &HostEnv, name: &str, present: &[bool]) -> (r: Option<HostPath>)
    ensures
        match r {
            Some(p) => first_present(bundled_candidates_spec(*env, name@), present@, 0) == Some(
                p@,
            ),
            None => first_present(bundled_candidates_spec(*env, name@), present@, 0) is None,
        },
{
    let cands = bundled_candidates(env, name);
    pick_present(cands, present)
}

/// The bundled yt-dlp, given which of the bundled candidates of `yt-dlp` exist.
pub fn find_bundled_ytdlp(env: &HostEnv, present: &[bool]) -> (r: Option<HostPath>)
    ensures
        match r {
            Some(p) => first_present(bundled_candidates_spec(*env, "yt-dlp"@), present@, 0) == Some(
                p@,
            ),
            None => first_present(bundled_candidates_spec(*env, "yt-dlp"@), present@, 0) is None,
        },
{
    bundled_binary_path(env, "yt-dlp", present)
}

/// Where the per-user copy of Deno goes: its file name in `dir`.
pub open spec fn deno_target_spec(platform: Platform, dir: Seq<char>) -> PathView {
    joined(plain(dir), exe_name_spec(platform, "deno"@))
}

/// The path of the per-user copy of Deno in directory `dir`.
pub fn deno_target(platform: Platform, dir: &str) -> (r: HostPath)
    ensures
        r@ == deno_target_spec(platform, dir@),
{
    let exe = user_exe_name(platform, "deno");
    HostPath::plain(dir).join(exe.as_str())
}

/// Whether Deno is copied next to the per-user yt-dlp in `dir`, and from
/// where to where: from the bundled Deno (the first of its bundled
/// candidates flagged in `present`) to [`deno_target_spec`]; nothing when
/// no bundled Deno exists or when the target already exists.
pub open spec fn deno_staging_spec(env: HostEnv, dir: Seq<char>, present: Seq<bool>, target_exists: bool) -> Option<(PathView, PathView)> {
    match first_present(bundled_candidates_spec(env, "deno"@), present, 0) {
        None => None,
        Some(source) => if target_exists {
            None
        } else {
            Some((source, deno_target_spec(env.platform, dir)))
        },
    }
}

/// Decides the copy of the bundled Deno into `dir`, given which bundled
/// candidates of `deno` exist and whether the target already exists.
pub fn deno_staging(env: &HostEnv, dir: &str, present: &[bool], target_exists: bool) -> (r: Option<(HostPath, HostPath)>)
    ensures
        match r {
            Some((from, to)) => deno_staging_spec(*env, dir@, present@, target_exists) == Some((from@, to@)),
            None => deno_staging_spec(*env, dir@, present@, target_exists) is None,
        },
{
    match bundled_binary_path(env, "deno", present) {
        None => None,
        Some(source) => if target_exists {
            None
        } else {
            Some((source, deno_target(env.platform, dir)))
        },
    }
}

/// The environment variable that may name program `name` directly.
pub open spec fn override_spec(env: HostEnv, name: Seq<char>) -> Option<Seq<char>> {
    let v = if name == "yt-dlp"@ {
        env.yt_dlp_path
    } else if name == "ffmpeg"@ {
        env.ffmpeg_path
    } else {
        env.bin_path
    };
    match v {
        Some(s) => Some(s@),
        None => None,
    }
}

/// The system directories searched for a program, in order.
pub open spec fn system_dirs() -> Seq<Seq<char>> {
    seq!["/opt/homebrew/bin"@, "/usr/local/bin"@, "/opt/local/bin"@, "/usr/bin"@]
}

/// The candidates from the home directory: `~/.local/bin/<name>`, then,
/// when `HOMEBREW_PREFIX` is set too, `<prefix>/bin/<name>`.
pub open spec fn home_candidates(env: HostEnv, name: Seq<char>) -> Seq<PathView> {
    match env.home {
        None => Seq::empty(),
        Some(h) => match env.homebrew_prefix {
            None => seq![plain(h@ + "/.local/bin/"@ + name)],
            Some(b) => seq![plain(h@ + "/.local/bin/"@ + name), plain(b@ + "/bin/"@ + name)],
        },
    }
}

/// The path that the environment variable of program `name` names, if set.
pub open spec fn var_candidates(env: HostEnv, name: Seq<char>) -> Seq<PathView> {
    match override_spec(env, name) {
        Some(p) => seq![plain(p)],
        None => Seq::empty(),
    }
}

/// For yt-dlp and Deno, the per-user copy.
pub open spec fn user_candidates(env: HostEnv, name: Seq<char>) -> Seq<PathView> {
    if name == "yt-dlp"@ || name == "deno"@ {
        match user_bin_path_spec(env, name) {
            Some(p) => seq![p],
            None => Seq::empty(),
        }
    } else {
        Seq::empty()
    }
}

/// Program `name` in each of the system directories.
pub open spec fn system_candidates(name: Seq<char>) -> Seq<PathView> {
    system_dirs().map_values(|d: Seq<char>| plain(d + "/"@ + name))
}

/// Every path where program `name` is looked for, in order of preference:
/// the path its environment variable names; for yt-dlp and Deno the
/// per-user copy; the bundled copies; the system directories; the home
/// candidates.
pub open spec fn binary_candidates_spec(env: HostEnv, name: Seq<char>) -> Seq<PathView> {
    var_candidates(env, name) + user_candidates(env, name) + bundled_candidates_spec(env, name)
        + system_candidates(name) + home_candidates(env, name)
}

/// `a`, `b` and `c` one after the other, as a plain path.
fn plain3(a: &str, b: &str, c: &str) -> (r: HostPath)
    ensures
        r@ == plain(a@ + b@ + c@),
{
    let mut v: Vec<char> = Vec::new();
    push_str(&mut v, a);
    push_str(&mut v, b);
    push_str(&mut v, c);
    let s = string_of(&v);
    HostPath::plain(s.as_str())
}

/// Moves all paths of `w` to the end of `v`.
fn append_paths(v: &mut Vec<HostPath>, w: Vec<HostPath>)
    ensures
        path_views(final(v)@) == path_views(old(v)@) + path_views(w@),
{
    let mut w = w;
    let ghost wv = w@;
    v.append(&mut w);
    assert(path_views(final(v)@) =~= path_views(old(v)@) + path_views(wv));
}

fn var_candidate_paths(env: &HostEnv, name: &str) -> (r: Vec<HostPath>)
    ensures
        path_views(r@) == var_candidates(*env, name@),
{
    let mut v: Vec<HostPath> = Vec::new();
    let var = if crate::text::str_eq(name, "yt-dlp") {
        &env.yt_dlp_path
    } else if crate::text::str_eq(name, "ffmpeg") {
        &env.ffmpeg_path
    } else {
        &env.bin_path
    };
    match var {
        Some(p) => push_path(&mut v, HostPath::plain(p.as_str())),
        None => {},
    }
    assert(path_views(v@) =~= var_candidates(*env, name@));
    v
}

fn user_candidate_paths(env: &HostEnv, name: &str) -> (r: Vec<HostPath>)
    ensures
        path_views(r@) == user_candidates(*env, name@),
{
    let mut v: Vec<HostPath> = Vec::new();
    if crate::text::str_eq(name, "yt-dlp") || crate::text::str_eq(name, "deno") {
        match user_bin_path(env, name) {
            Some(p) => push_path(&mut v, p),
            None => {},
        }
    }
    assert(path_views(v@) =~= user_candidates(*env, name@));
    v
}

fn system_candidate_paths(name: &str) -> (r: Vec<HostPath>)
    ensures
        path_views(r@) == system_candidates(name@),
{
    let mut v: Vec<HostPath> = Vec::new();
    push_path(&mut v, plain3("/opt/homebrew/bin", "/", name));
    push_path(&mut v, plain3("/usr/local/bin", "/", name));
    push_path(&mut v, plain3("/opt/local/bin", "/", name));
    push_path(&mut v, plain3("/usr/bin", "/", name));
    assert(path_views(v@) =~= system_candidates(name@));
    v
}

fn home_candidate_paths(env: &HostEnv, name: &str) -> (r: Vec<HostPath>)
    ensures
        path_views(r@) == home_candidates(*env, name@),
{
    let mut v: Vec<HostPath> = Vec::new();
    match &env.home {
        Some(h) => {
            push_path(&mut v, plain3(h.as_str(), "/.local/bin/", name));
            match &env.homebrew_prefix {
                Some(b) => push_path(&mut v, plain3(b.as_str(), "/bin/", name)),
                None => {},
            }
        },
        None => {},
    }
    assert(path_views(v@) =~= home_candidates(*env, name@));
    v
}

/// Every path where program `name` is looked for, in order of preference.
pub fn binary_candidates(env: &HostEnv, name: &str) -> (r: Vec<HostPath>)
    ensures
        path_views(r@) == binary_candidates_spec(*env, name@),
{
    let mut v = var_candidate_paths(env, name);
    append_paths(&mut v, user_candidate_paths(env, name));
    append_paths(&mut v, bundled_candidates(env, name));
    append_paths(&mut v, system_candidate_paths(name));
    append_paths(&mut v, home_candidate_paths(env, name));
    v
}

/// The program that runs for `name`: the first candidate that exists, or
/// the bare name (left to the system's program search) when none does.
pub open spec fn find_binary_spec(env: HostEnv, name: Seq<char>, present: Seq<bool>) -> PathView {
    match first_present(binary_candidates_spec(env, name), present, 0) {
        Some(p) => p,
        None => plain(name),
    }
}

/// Finds program `name`, given which of [`binary_candidates`] exist.
pub fn find_binary(env: &HostEnv, name: &str, present: &[bool]) -> (r: HostPath)
    ensures
        r@ == find_binary_spec(*env, name@, present@),
{
    let cands = binary_candidates(env, name);
    match pick_present(cands, present) {
        Some(p) => p,
        None => HostPath::plain(name),
    }
}

proof fn lemma_first_present_found(cands: Seq<PathView>, present: Seq<bool>, i: int)
    requires
        0 <= i,
    ensures
        first_present(cands, present, i) matches Some(p) ==> exists|j: int|
            i <= j < cands.len() && j < present.len() && present[j] && cands[j] == p,
    decreases cands.len() - i,
{
    if i < cands.len() && !(i < present.len() && present[i]) {
        lemma_first_present_found(cands, present, i + 1);
    }
}

/// The program chosen for `name` is either one of its candidates that
/// exists, or its bare name.
pub proof fn law_found_binary_exists(env: HostEnv, name: Seq<char>, present: Seq<bool>)
    ensures
        find_binary_spec(env, name, present) == plain(name) || exists|j: int|
            0 <= j < binary_candidates_spec(env, name).len() && j < present.len() && present[j]
                && binary_candidates_spec(env, name)[j] == find_binary_spec(env, name, present),
{
    lemma_first_present_found(binary_candidates_spec(env, name), present, 0);
}

/// A path named by the program's environment variable is used whenever it
/// exists.
pub proof fn law_variable_wins(env: HostEnv, name: Seq<char>, present: Seq<bool>)
    requires
        override_spec(env, name) is Some,
        present.len() > 0,
        present[0],
    ensures
        find_binary_spec(env, name, present) == plain(override_spec(env, name)->0),
{
}

/// The paths where program `name` is looked for, in order: the path named
/// by its own environment variable (`YT_DLP_PATH` for yt-dlp, `FFMPEG_PATH`
/// for ffmpeg, `YT_GRAB_BIN_PATH` for the others), when set; for yt-dlp and
/// Deno only, their per-user copy, when there is a per-user directory; the
/// bundled copies; `name` in each system directory; and from the home
/// directory, when `HOME` is set, `~/.local/bin/<name>` and then, when
/// `HOMEBREW_PREFIX` is set too, `<prefix>/bin/<name>`.
pub proof fn law_binary_candidate_order(env: HostEnv, name: Seq<char>)
    ensures
        ({
            let c = binary_candidates_spec(env, name);
            let var = if name == "yt-dlp"@ {
                env.yt_dlp_path
            } else if name == "ffmpeg"@ {
                env.ffmpeg_path
            } else {
                env.bin_path
            };
            let k: int = if var is Some { 1 } else { 0 };
            let own = name == "yt-dlp"@ || name == "deno"@;
            let u: int = if own && user_bin_path_spec(env, name) is Some { 1 } else { 0 };
            let b = bundled_candidates_spec(env, name);
            let h: int = match env.home {
                None => 0,
                Some(_) => if env.homebrew_prefix is Some { 2 } else { 1 },
            };
            let s = k + u + b.len();
            &&& c.len() == s + 4 + h
            &&& (var matches Some(p) ==> c[0] == plain(p@))
            &&& (own ==> (user_bin_path_spec(env, name) matches Some(p) ==> c[k] == p))
            &&& (forall|j: int| 0 <= j < b.len() ==> c[k + u + j] == #[trigger] b[j])
            &&& c[s] == plain("/opt/homebrew/bin/"@ + name)
            &&& c[s + 1] == plain("/usr/local/bin/"@ + name)
            &&& c[s + 2] == plain("/opt/local/bin/"@ + name)
            &&& c[s + 3] == plain("/usr/bin/"@ + name)
            &&& (env.home matches Some(hd) ==> c[s + 4] == plain(hd@ + "/.local/bin/"@ + name))
            &&& (env.home is Some ==> (env.homebrew_prefix matches Some(bp) ==> c[s + 5] == plain(
                bp@ + "/bin/"@ + name,
            )))
        }),
{
    let c = binary_candidates_spec(env, name);
    let sys = system_candidates(name);
    reveal_strlit("/opt/homebrew/bin");
    reveal_strlit("/usr/local/bin");
    reveal_strlit("/opt/local/bin");
    reveal_strlit("/usr/bin");
    reveal_strlit("/");
    reveal_strlit("/opt/homebrew/bin/");
    reveal_strlit("/usr/local/bin/");
    reveal_strlit("/opt/local/bin/");
    reveal_strlit("/usr/bin/");
    assert("/opt/homebrew/bin"@ + "/"@ + name =~= "/opt/homebrew/bin/"@ + name);
    assert("/usr/local/bin"@ + "/"@ + name =~= "/usr/local/bin/"@ + name);
    assert("/opt/local/bin"@ + "/"@ + name =~= "/opt/local/bin/"@ + name);
    assert("/usr/bin"@ + "/"@ + name =~= "/usr/bin/"@ + name);
    assert(sys.len() == 4);
}

/// When the per-user copy of yt-dlp or Deno exists and no path before it
/// (only the one named by the environment variable can be) exists, that
/// copy is the program used.
pub proof fn law_user_copy_is_used(env: HostEnv, name: Seq<char>, present: Seq<bool>)
    requires
        name == "yt-dlp"@ || name == "deno"@,
        user_bin_path_spec(env, name) is Some,
        override_spec(env, name) is None ==> present.len() > 0 && present[0],
        override_spec(env, name) is Some ==> present.len() > 1 && !present[0] && present[1],
    ensures
        find_binary_spec(env, name, present) == user_bin_path_spec(env, name)->0,
{
    let c = binary_candidates_spec(env, name);
    law_binary_candidate_order(env, name);
    if override_spec(env, name) is Some {
        assert(first_present(c, present, 0) == first_present(c, present, 1));
    }
}

// ---------------------------------------------------------------------------
// Running helper programs
// ---------------------------------------------------------------------------
/// The separator of the `PATH` list.
pub open spec fn path_list_separator(platform: Platform) -> Seq<char> {
    if platform == Platform::Windows {
        ";"@
    } else {
        ":"@
    }
}

/// What is put in front of `PATH` when a helper program runs: a program
/// outside the per-user directory that is given with a directory gets that
/// directory searched first, so that programs bundled next to it are found.
pub open spec fn search_path_prefix_spec(
    platform: Platform,
    in_user_dir: bool,
    program_dir: Option<Seq<char>>,
) -> Option<Seq<char>> {
    match program_dir {
        Some(d) => if !in_user_dir && d.len() > 0 {
            Some(d + path_list_separator(platform))
        } else {
            None
        },
        None => None,
    }
}

/// The text to put in front of `PATH` for a helper program, if any;
/// `program_dir` is the directory part of the program's path.
pub fn search_path_prefix(platform: Platform, in_user_dir: bool, program_dir: Option<&str>) -> (r:
    Option<String>)
    ensures
        match r {
            Some(s) => search_path_prefix_spec(platform, in_user_dir, match program_dir {
                Some(d) => Some(d@),
                None => None,
            }) == Some(s@),
            None => search_path_prefix_spec(platform, in_user_dir, match program_dir {
                Some(d) => Some(d@),
                None => None,
            }) is None,
        },
{
    match program_dir {
        Some(d) => {
            if !in_user_dir && !d.is_empty() {
                let mut v = chars_of(d);
                if platform == Platform::Windows {
                    push_str(&mut v, ";");
                } else {
                    push_str(&mut v, ":");
                }
                Some(string_of(&v))
            } else {
                None
            }
        },
        None => None,
    }
}

/// A program to start, with its arguments.
pub struct Launch {
    pub program: String,
    pub args: Vec<String>,
}

/// How a downloaded file is shown to the user: revealed in Finder on
/// macOS, selected in Explorer on Windows, its directory opened with
/// `xdg-open` on Linux; nothing elsewhere or when the path has no parent.
pub open spec fn reveal_command_spec(
    platform: Platform,
    path: Seq<char>,
    parent: Option<Seq<char>>,
) -> Option<(Seq<char>, Seq<Seq<char>>)> {
    match platform {
        Platform::MacOs => Some(("open"@, seq!["-R"@, path])),
        Platform::Windows => Some(("explorer"@, seq!["/select,"@, path])),
        Platform::Linux => match parent {
            Some(p) => Some(("xdg-open"@, seq![p])),
            None => None,
        },
        Platform::OtherUnix => None,
    }
}

/// The command that shows file `path` (whose directory is `parent`).
pub fn reveal_command(platform: Platform, path: &str, parent: Option<&str>) -> (r: Option<Launch>)
    ensures
        match r {
            Some(l) => reveal_command_spec(platform, path@, match parent {
                Some(p) => Some(p@),
                None => None,
            }) == Some((l.program@, part_texts(l.args@))),
            None => reveal_command_spec(platform, path@, match parent {
                Some(p) => Some(p@),
                None => None,
            }) is None,
        },
{
    match platform {
        Platform::MacOs => {
            let mut args: Vec<String> = Vec::new();
            args.push(owned("-R"));
            args.push(owned(path));
            assert(part_texts(args@) =~= seq!["-R"@, path@]);
            Some(Launch { program: owned("open"), args })
        },
        Platform::Windows => {
            let mut args: Vec<String> = Vec::new();
            args.push(owned("/select,"));
            args.push(owned(path));
            assert(part_texts(args@) =~= seq!["/select,"@, path@]);
            Some(Launch { program: owned("explorer"), args })
        },
        Platform::Linux => match parent {
            Some(p) => {
                let mut args: Vec<String> = Vec::new();
                args.push(owned(p));
                assert(part_texts(args@) =~= seq![p@]);
                Some(Launch { program: owned("xdg-open"), args })
            },
            None => None,
        },
        Platform::OtherUnix => None,
    }
}

// ---------------------------------------------------------------------------
// Reports about the environment
// ---------------------------------------------------------------------------
/// The message shown when yt-dlp cannot be found.
pub open spec fn ytdlp_missing_message() -> Seq<char> {
    "yt-dlp not found. The app needs yt-dlp to download videos.\n\nExpected locations:\n- Bundled in the app (binaries/yt-dlp)\n- /opt/homebrew/bin/yt-dlp\n- /usr/local/bin/yt-dlp\n\nInstall with: brew install yt-dlp"@
}

/// The message shown when ffmpeg cannot be found.
pub open spec fn ffmpeg_missing_message() -> Seq<char> {
    "ffmpeg not found. The app needs ffmpeg to merge video and audio.\n\nExpected locations:\n- Bundled in the app (binaries/ffmpeg)\n- /opt/homebrew/bin/ffmpeg\n- /usr/local/bin/ffmpeg\n\nInstall with: brew install ffmpeg"@
}

/// The outcome of the start-up check: an error when a program that was
/// not found anywhere (its bare name was kept, and no such file exists) is
/// yt-dlp or ffmpeg, yt-dlp first; otherwise both paths, with the staged
/// yt-dlp version in parentheses when there is one.
pub open spec fn binaries_report_spec(
    yt: Seq<char>,
    yt_exists: bool,
    ff: Seq<char>,
    ff_exists: bool,
    version: Option<Seq<char>>,
) -> Result<Seq<char>, Seq<char>> {
    if ends_with_seq(yt, "yt-dlp"@) && !yt_exists {
        Err(ytdlp_missing_message())
    } else if ends_with_seq(ff, "ffmpeg"@) && !ff_exists {
        Err(ffmpeg_missing_message())
    } else {
        let suffix = match version {
            Some(v) => " ("@ + v + ")"@,
            None => Seq::empty(),
        };
        Ok("yt-dlp: "@ + yt + suffix + "\nffmpeg: "@ + ff)
    }
}

/// Builds the outcome of the start-up check.
pub fn binaries_report(yt: &str, yt_exists: bool, ff: &str, ff_exists: bool, version: Option<&str>) -> (r:
    Result<String, String>)
    ensures
        match r {
            Ok(s) => binaries_report_spec(yt@, yt_exists, ff@, ff_exists, match version {
                Some(v) => Some(v@),
                None => None,
            }) == Ok::<Seq<char>, Seq<char>>(s@),
            Err(s) => binaries_report_spec(yt@, yt_exists, ff@, ff_exists, match version {
                Some(v) => Some(v@),
                None => None,
            }) == Err::<Seq<char>, Seq<char>>(s@),
        },
{
    if ends_with_str(yt, "yt-dlp") && !yt_exists {
        return Err(
            owned(
                "yt-dlp not found. The app needs yt-dlp to download videos.\n\nExpected locations:\n- Bundled in the app (binaries/yt-dlp)\n- /opt/homebrew/bin/yt-dlp\n- /usr/local/bin/yt-dlp\n\nInstall with: brew install yt-dlp",
            ),
        );
    }
    if ends_with_str(ff, "ffmpeg") && !ff_exists {
        return Err(
            owned(
                "ffmpeg not found. The app needs ffmpeg to merge video and audio.\n\nExpected locations:\n- Bundled in the app (binaries/ffmpeg)\n- /opt/homebrew/bin/ffmpeg\n- /usr/local/bin/ffmpeg\n\nInstall with: brew install ffmpeg",
            ),
        );
    }
    let mut v: Vec<char> = Vec::new();
    push_str(&mut v, "yt-dlp: ");
    push_str(&mut v, yt);
    match version {
        Some(ver) => {
            push_str(&mut v, " (");
            push_str(&mut v, ver);
            push_str(&mut v, ")");
        },
        None => {},
    }
    push_str(&mut v, "\nffmpeg: ");
    push_str(&mut v, ff);
    let ghost suffix = match version {
        Some(ver) => " ("@ + ver@ + ")"@,
        None => Seq::<char>::empty(),
    };
    assert(v@ =~= "yt-dlp: "@ + yt@ + suffix + "\nffmpeg: "@ + ff@);
    Ok(string_of(&v))
}

/// Where the user's downloads directory is looked for: `Downloads` in the
/// home directory.
pub open spec fn downloads_candidate_spec(home: Seq<char>) -> Seq<char> {
    home + "/Downloads"@
}

/// The downloads directory in `home`.
pub fn downloads_candidate(home: &str) -> (r: String)
    ensures
        r@ == downloads_candidate_spec(home@),
{
    let mut v = chars_of(home);
    push_str(&mut v, "/Downloads");
    string_of(&v)
}

/// The directory that downloads go to by default: the one `YT_GRAB_OUTPUT`
/// names, else the home directory's `Downloads` when it exists, else an error.
pub open spec fn download_dir_spec(
    output_var: Option<Seq<char>>,
    home: Option<Seq<char>>,
    downloads_exists: bool,
) -> Result<Seq<char>, Seq<char>> {
    match output_var {
        Some(d) => Ok(d),
        None => match home {
            Some(h) => if downloads_exists {
                Ok(downloads_candidate_spec(h))
            } else {
                Err("Could not determine downloads directory"@)
            },
            None => Err("Could not determine downloads directory"@),
        },
    }
}

/// The default download directory; `downloads_exists` tells whether
/// [`downloads_candidate`] of `home` exists.
pub fn download_dir(output_var: Option<&str>, home: Option<&str>, downloads_exists: bool) -> (r:
    Result<String, String>)
    ensures
        match r {
            Ok(s) => download_dir_spec(match output_var {
                Some(d) => Some(d@),
                None => None,
            }, match home {
                Some(h) => Some(h@),
                None => None,
            }, downloads_exists) == Ok::<Seq<char>, Seq<char>>(s@),
            Err(s) => download_dir_spec(match output_var {
                Some(d) => Some(d@),
                None => None,
            }, match home {
                Some(h) => Some(h@),
                None => None,
            }, downloads_exists) == Err::<Seq<char>, Seq<char>>(s@),
        },
{
    match output_var {
        Some(d) => Ok(owned(d)),
        None => match home {
            Some(h) => if downloads_exists {
                Ok(downloads_candidate(h))
            } else {
                Err(owned("Could not determine downloads directory"))
            },
            None => Err(owned("Could not determine downloads directory")),
        },
    }
}


/// The per-user copy of a program sits in the application's `bin`
/// directory (`com.ytgrab.desktop/bin`), under the application data
/// directory of the platform: `%APPDATA%` on Windows, the home directory
/// otherwise; its file name is the program's name, with `.exe` on Windows.
/// There is none exactly when that starting variable is unset.
pub proof fn law_user_copy_location(env: HostEnv, name: Seq<char>)
    ensures
        user_bin_path_spec(env, name) is None <==> (if env.platform == Platform::Windows {
            env.appdata is None
        } else {
            env.home is None
        }),
        user_bin_path_spec(env, name) matches Some(p) ==> {
            let n = p.parts.len();
            &&& n >= 3
            &&& p.parts[n - 1] == (if env.platform == Platform::Windows {
                name + ".exe"@
            } else {
                name
            })
            &&& p.parts[n - 2] == "bin"@
            &&& p.parts[n - 3] == "com.ytgrab.desktop"@
            &&& (env.platform == Platform::Windows ==> p.base == env.appdata->0@ && n == 3)
            &&& (env.platform == Platform::MacOs ==> p.base == env.home->0@ && n == 4 && p.parts[0]
                == "Library/Application Support"@)
            &&& (env.platform == Platform::Linux || env.platform == Platform::OtherUnix ==> p.base
                == env.home->0@ && n == 4 && p.parts[0] == ".local/share"@)
        },
{
}

/// Downloads go to the directory that `YT_GRAB_OUTPUT` names when it is
/// set; otherwise to `Downloads` in the home directory when that exists;
/// otherwise there is no download directory.
pub proof fn law_download_dir_choice(output_var: Option<Seq<char>>, home: Option<Seq<char>>, downloads_exists: bool)
    ensures
        output_var matches Some(d) ==> download_dir_spec(output_var, home, downloads_exists) == Ok::<Seq<char>, Seq<char>>(d),
        output_var is None && home is Some && downloads_exists ==> download_dir_spec(
            output_var,
            home,
            downloads_exists,
        ) == Ok::<Seq<char>, Seq<char>>(home->0 + "/Downloads"@),
        output_var is None && !(home is Some && downloads_exists) ==> download_dir_spec(
            output_var,
            home,
            downloads_exists,
        ) is Err,
{
}

/// The start-up check fails, naming yt-dlp first, when a program that was
/// not found under any path (its bare name, or a path ending in it, that
/// does not exist) is yt-dlp or ffmpeg; otherwise it reports the yt-dlp
/// path (with the staged version in parentheses, when there is one) and
/// then the ffmpeg path.
pub proof fn law_binaries_report(yt: Seq<char>, yt_exists: bool, ff: Seq<char>, ff_exists: bool, version: Option<Seq<char>>)
    ensures
        ends_with_seq(yt, "yt-dlp"@) && !yt_exists ==> binaries_report_spec(yt, yt_exists, ff, ff_exists, version)
            == Err::<Seq<char>, Seq<char>>(ytdlp_missing_message()),
        !(ends_with_seq(yt, "yt-dlp"@) && !yt_exists) && ends_with_seq(ff, "ffmpeg"@) && !ff_exists
            ==> binaries_report_spec(yt, yt_exists, ff, ff_exists, version) == Err::<Seq<char>, Seq<char>>(
            ffmpeg_missing_message(),
        ),
        yt_exists && ff_exists ==> binaries_report_spec(yt, yt_exists, ff, ff_exists, version) == Ok::<
            Seq<char>,
            Seq<char>,
        >(
            "yt-dlp: "@ + yt + (match version {
                Some(v) => " ("@ + v + ")"@,
                None => Seq::<char>::empty(),
            }) + "\nffmpeg: "@ + ff,
        ),
{
}

/// A program's directory is searched first exactly when the program is
/// given with a non-empty directory outside the per-user directory; the
/// prefix is that directory followed by the platform's list separator
/// (`;` on Windows, `:` elsewhere).
pub proof fn law_search_path_prefix(platform: Platform, in_user_dir: bool, program_dir: Option<Seq<char>>)
    ensures
        search_path_prefix_spec(platform, in_user_dir, program_dir) is Some <==> (!in_user_dir
            && (program_dir matches Some(d) && d.len() > 0)),
        search_path_prefix_spec(platform, in_user_dir, program_dir) matches Some(p) ==> p
            == program_dir->0 + (if platform == Platform::Windows {
            ";"@
        } else {
            ":"@
        }),
{
}

/// A finished file is shown by the platform's file manager: `open -R` with
/// the file on macOS, `explorer /select,` with the file on Windows, and
/// `xdg-open` with its directory on Linux.
pub proof fn law_reveal_command(platform: Platform, path: Seq<char>, parent: Option<Seq<char>>)
    ensures
        platform == Platform::MacOs ==> reveal_command_spec(platform, path, parent) == Some(
            ("open"@, seq!["-R"@, path]),
        ),
        platform == Platform::Windows ==> reveal_command_spec(platform, path, parent) == Some(
            ("explorer"@, seq!["/select,"@, path]),
        ),
        platform == Platform::Linux ==> reveal_command_spec(platform, path, parent) == match parent {
            Some(d) => Some(("xdg-open"@, seq![d])),
            None => None,
        },
        platform == Platform::OtherUnix ==> reveal_command_spec(platform, path, parent) is None,
{
}


/// Bundled copies are looked for in `binaries` next to the executable and
/// then in `Resources/binaries` in the executable's parent directory, under
/// the program's file name and, for yt-dlp, then also as `yt-dlp_macos`;
/// there are none without the executable's directory.
pub proof fn law_bundled_candidate_order(env: HostEnv, name: Seq<char>)
    ensures
        ({
            let b = bundled_candidates_spec(env, name);
            let exe = if env.platform == Platform::Windows {
                name + ".exe"@
            } else {
                name
            };
            let per_root: int = if name == "yt-dlp"@ { 2 } else { 1 };
            &&& (env.exe_dir is None ==> b.len() == 0)
            &&& (env.exe_dir matches Some(d) ==> {
                let first = PathView { base: d@, parts: seq!["binaries"@] };
                &&& b.len() == (if env.exe_grandparent is Some { 2 * per_root } else { per_root })
                &&& b[0] == joined(first, exe)
                &&& (name == "yt-dlp"@ ==> b[1] == joined(first, "yt-dlp_macos"@))
                &&& (env.exe_grandparent matches Some(g) ==> b[per_root] == PathView {
                    base: g@,
                    parts: seq!["Resources"@, "binaries"@, exe],
                })
            })
        }),
{
    match env.exe_dir {
        None => {},
        Some(d) => {
            let first = PathView { base: d@, parts: seq!["binaries"@] };
            assert(joined(plain(d@), "binaries"@).parts =~= seq!["binaries"@]);
            match env.exe_grandparent {
                Some(g) => {
                    let second = joined(joined(plain(g@), "Resources"@), "binaries"@);
                    assert(second.parts =~= seq!["Resources"@, "binaries"@]);
                    let exe = exe_name_spec(env.platform, name);
                    assert(joined(second, exe).parts =~= seq!["Resources"@, "binaries"@, exe]);
                },
                None => {},
            }
        },
    }
}


/// Deno is copied next to the per-user yt-dlp only when a bundled Deno
/// exists and the directory has no Deno yet; it is copied from the first
/// bundled Deno that exists to `deno` (`deno.exe` on Windows) in that
/// directory.
pub proof fn law_deno_staging(env: HostEnv, dir: Seq<char>, present: Seq<bool>, target_exists: bool)
    ensures
        target_exists ==> deno_staging_spec(env, dir, present, target_exists) is None,
        first_present(bundled_candidates_spec(env, "deno"@), present, 0) is None ==> deno_staging_spec(
            env,
            dir,
            present,
            target_exists,
        ) is None,
        !target_exists ==> (first_present(bundled_candidates_spec(env, "deno"@), present, 0) matches Some(src)
            ==> deno_staging_spec(env, dir, present, target_exists) == Some(
            (
                src,
                PathView {
                    base: dir,
                    parts: seq![
                        if env.platform == Platform::Windows {
                            "deno.exe"@
                        } else {
                            "deno"@
                        },
                    ],
                },
            ),
        )),
{
    reveal_strlit("deno");
    reveal_strlit(".exe");
    reveal_strlit("deno.exe");
    assert("deno"@ + ".exe"@ =~= "deno.exe"@);
    let t = deno_target_spec(env.platform, dir);
    assert(t.parts =~= seq![exe_name_spec(env.platform, "deno"@)]);
}

} // verus!
