//! Reading the progress lines that yt-dlp prints for the progress template
//! `downloaded:…|total:…|speed:…|eta:…|pct:…`, and the short duration text
//! shown as the remaining time.
use vstd::prelude::*;
use crate::numbers::{
    all_digits, decimal, decimal2, is_digit, law_parse_decimal_roundtrip, lemma_decimal2_digits,
    lemma_decimal_digits,
    parse_u64, parse_u64_spec, push_decimal, push_decimal2, unsigned_digits,
};
use crate::text::{
    chars_eq, chars_of, lacks, opt_chars, lemma_split_on_concat, lemma_split_on_single, lemma_split_once_key,
    seqs_view, slice_chars, split_chars, split_on, split_once_chars,
    split_once_spec, string_of, strip_trailing, strip_trailing_chars, trim_chars, trim_spec,
};

verus! {

/// The fields of one progress line.
///
/// `downloaded` and `total` are byte counts. `speed`, `eta` and `pct` are
/// kept as the text that followed their key (for `pct`: trimmed and without
/// trailing `%`); reading them as numbers is left to the caller.
pub struct ProgressFields {
    pub downloaded: u64,
    pub total: Option<u64>,
    pub speed: Option<String>,
    pub eta: Option<String>,
    pub pct: Option<String>,
}

/// The mathematical content of a [`ProgressFields`].
pub struct ProgressFieldsView {
    pub downloaded: u64,
    pub total: Option<u64>,
    pub speed: Option<Seq<char>>,
    pub eta: Option<Seq<char>>,
    pub pct: Option<Seq<char>>,
}

impl View for ProgressFields {
    type V = ProgressFieldsView;

    open spec fn view(&self) -> ProgressFieldsView {
        ProgressFieldsView {
            downloaded: self.downloaded,
            total: self.total,
            speed: opt_chars(self.speed),
            eta: opt_chars(self.eta),
            pct: opt_chars(self.pct),
        }
    }
}

/// Every piece of the line has a `key:value` shape.
pub open spec fn all_keyed(parts: Seq<Seq<char>>) -> bool {
    forall|i: int| 0 <= i < parts.len() ==> (#[trigger] split_once_spec(parts[i], ':')) is Some
}

/// The value of the last piece whose key is `key`.
pub open spec fn field_value(parts: Seq<Seq<char>>, key: Seq<char>) -> Option<Seq<char>>
    decreases parts.len(),
{
    if parts.len() == 0 {
        None
    } else {
        match split_once_spec(parts.last(), ':') {
            Some((k, v)) => if k == key {
                Some(v)
            } else {
                field_value(parts.drop_last(), key)
            },
            None => field_value(parts.drop_last(), key),
        }
    }
}

/// The optional number held by the last piece with key `key`.
pub open spec fn number_field(parts: Seq<Seq<char>>, key: Seq<char>) -> Option<u64> {
    match field_value(parts, key) {
        Some(v) => parse_u64_spec(v),
        None => None,
    }
}

/// The percentage text held by the last `pct` piece: trimmed, without trailing `%`.
pub open spec fn pct_field(parts: Seq<Seq<char>>) -> Option<Seq<char>> {
    match field_value(parts, "pct"@) {
        Some(v) => Some(strip_trailing(trim_spec(v), '%')),
        None => None,
    }
}

/// What a progress line holds: `None` unless every `|`-separated piece has a
/// `key:value` shape and the last `downloaded` value is a byte count; later
/// pieces override earlier ones with the same key; unknown keys are ignored.
pub open spec fn progress_spec(line: Seq<char>) -> Option<ProgressFieldsView> {
    let parts = split_on(line, '|');
    if !all_keyed(parts) {
        None
    } else {
        match number_field(parts, "downloaded"@) {
            Some(d) => Some(
                ProgressFieldsView {
                    downloaded: d,
                    total: number_field(parts, "total"@),
                    speed: field_value(parts, "speed"@),
                    eta: field_value(parts, "eta"@),
                    pct: pct_field(parts),
                },
            ),
            None => None,
        }
    }
}

/// The last value seen for one key while scanning the pieces.
fn keep_if_key(
    slot: &mut Option<Vec<char>>,
    key: &Vec<char>,
    val: &Vec<char>,
    wanted: &str,
    Ghost(prefix): Ghost<Seq<Seq<char>>>,
    Ghost(piece): Ghost<Seq<char>>,
)
    requires
        split_once_spec(piece, ':') == Some((key@, val@)),
        match *old(slot) {
            Some(s) => field_value(prefix, wanted@) == Some(s@),
            None => field_value(prefix, wanted@) is None,
        },
    ensures
        match *final(slot) {
            Some(s) => field_value(prefix.push(piece), wanted@) == Some(s@),
            None => field_value(prefix.push(piece), wanted@) is None,
        },
{
    let ghost next = prefix.push(piece);
    assert(next.drop_last() =~= prefix);
    assert(next.last() == piece);
    let w = chars_of(wanted);
    if chars_eq(key, &w) {
        *slot = Some(slice_chars(val, 0, val.len()));
        assert(val@.subrange(0, val@.len() as int) =~= val@);
    }
}

/// Reads one progress line.
pub fn parse_progress_line(line: &str) -> (r: Option<ProgressFields>)
    ensures
        match r {
            Some(f) => progress_spec(line@) == Some(f@),
            None => progress_spec(line@) is None,
        },
{
    let chars = chars_of(line);
    let parts = split_chars(&chars, '|');
    let ghost all = seqs_view(parts@);
    let mut downloaded: Option<Vec<char>> = None;
    let mut total: Option<Vec<char>> = None;
    let mut speed: Option<Vec<char>> = None;
    let mut eta: Option<Vec<char>> = None;
    let mut pct: Option<Vec<char>> = None;
    let mut i: usize = 0;
    assert(all.take(0) =~= Seq::<Seq<char>>::empty());
    while i < parts.len()
        invariant
            i <= parts@.len(),
            all == seqs_view(parts@),
            all == split_on(line@, '|'),
            forall|j: int| 0 <= j < i ==> (#[trigger] split_once_spec(all[j], ':')) is Some,
            match downloaded {
                Some(s) => field_value(all.take(i as int), "downloaded"@) == Some(s@),
                None => field_value(all.take(i as int), "downloaded"@) is None,
            },
            match total {
                Some(s) => field_value(all.take(i as int), "total"@) == Some(s@),
                None => field_value(all.take(i as int), "total"@) is None,
            },
            match speed {
                Some(s) => field_value(all.take(i as int), "speed"@) == Some(s@),
                None => field_value(all.take(i as int), "speed"@) is None,
            },
            match eta {
                Some(s) => field_value(all.take(i as int), "eta"@) == Some(s@),
                None => field_value(all.take(i as int), "eta"@) is None,
            },
            match pct {
                Some(s) => field_value(all.take(i as int), "pct"@) == Some(s@),
                None => field_value(all.take(i as int), "pct"@) is None,
            },
        decreases parts@.len() - i,
    {
        let ghost piece = all[i as int];
        assert(all.take(i + 1) =~= all.take(i as int).push(piece));
        match split_once_chars(&parts[i], ':') {
            None => {
                assert(!all_keyed(all));
                return None;
            },
            Some((key, val)) => {
                keep_if_key(
                    &mut downloaded,
                    &key,
                    &val,
                    "downloaded",
                    Ghost(all.take(i as int)),
                    Ghost(piece),
                );
                keep_if_key(&mut total, &key, &val, "total", Ghost(all.take(i as int)), Ghost(piece));
                keep_if_key(&mut speed, &key, &val, "speed", Ghost(all.take(i as int)), Ghost(piece));
                keep_if_key(&mut eta, &key, &val, "eta", Ghost(all.take(i as int)), Ghost(piece));
                keep_if_key(&mut pct, &key, &val, "pct", Ghost(all.take(i as int)), Ghost(piece));
            },
        }
        i = i + 1;
    }
    assert(all.take(parts@.len() as int) =~= all);
    assert(all_keyed(all));
    let d = match downloaded {
        Some(v) => match parse_u64(&v) {
            Some(d) => d,
            None => {
                return None;
            },
        },
        None => {
            return None;
        },
    };
    let total_bytes = match total {
        Some(v) => parse_u64(&v),
        None => None,
    };
    let speed_text = match speed {
        Some(v) => Some(string_of(&v)),
        None => None,
    };
    let eta_text = match eta {
        Some(v) => Some(string_of(&v)),
        None => None,
    };
    let pct_text = match pct {
        Some(v) => {
            let t = trim_chars(&v);
            let p = strip_trailing_chars(&t, '%');
            Some(string_of(&p))
        },
        None => None,
    };
    let f = ProgressFields {
        downloaded: d,
        total: total_bytes,
        speed: speed_text,
        eta: eta_text,
        pct: pct_text,
    };
    Some(f)
}

// ---------------------------------------------------------------------------
// Durations
// ---------------------------------------------------------------------------
/// The text shown for a number of seconds: `H:MM:SS` from one hour on,
/// `M:SS` from one minute on, and `Ns` below a minute.
pub open spec fn duration_text(s: nat) -> Seq<char> {
    if s >= 3600 {
        decimal(s / 3600) + seq![':'] + decimal2((s % 3600) / 60) + seq![':'] + decimal2(s % 60)
    } else if s >= 60 {
        decimal(s / 60) + seq![':'] + decimal2(s % 60)
    } else {
        decimal(s) + seq!['s']
    }
}

/// Formats a number of seconds as [`duration_text`] describes.
pub fn format_duration(seconds: u64) -> (r: String)
    ensures
        r@ == duration_text(seconds as nat),
{
    let mut v: Vec<char> = Vec::new();
    if seconds >= 3600 {
        push_decimal(&mut v, seconds / 3600);
        v.push(':');
        push_decimal2(&mut v, (seconds % 3600) / 60);
        v.push(':');
        push_decimal2(&mut v, seconds % 60);
    } else if seconds >= 60 {
        push_decimal(&mut v, seconds / 60);
        v.push(':');
        push_decimal2(&mut v, seconds % 60);
    } else {
        push_decimal(&mut v, seconds);
        v.push('s');
    }
    assert(v@ =~= duration_text(seconds as nat));
    string_of(&v)
}

/// The number of seconds that a duration text stands for, read by its
/// shape: `Ns` is N seconds; otherwise the text is cut at each `:`, and two
/// fields `M:SS` are minutes and seconds, three fields `H:MM:SS` hours,
/// minutes and seconds, each field read as `u64::from_str` reads it.
/// Nothing for any other text.
pub open spec fn read_duration(t: Seq<char>) -> Option<nat> {
    let f = split_on(t, ':');
    if t.len() > 0 && t.last() == 's' {
        match parse_u64_spec(t.drop_last()) {
            Some(n) => Some(n as nat),
            None => None,
        }
    } else if f.len() == 2 {
        match (parse_u64_spec(f[0]), parse_u64_spec(f[1])) {
            (Some(m), Some(x)) => Some((m * 60 + x) as nat),
            _ => None,
        }
    } else if f.len() == 3 {
        match (parse_u64_spec(f[0]), parse_u64_spec(f[1]), parse_u64_spec(f[2])) {
            (Some(h), Some(m), Some(x)) => Some((h * 3600 + m * 60 + x) as nat),
            _ => None,
        }
    } else {
        None
    }
}

/// A digit string holds no character that is not a digit.
proof fn lemma_digits_lack(s: Seq<char>, c: char)
    requires
        all_digits(s),
        !is_digit(c),
    ensures
        lacks(s, c),
{
    assert forall|i: int| 0 <= i < s.len() implies s[i] != c by {
        assert(is_digit(s[i]));
    }
}

/// Reading back the text shown for a number of seconds gives that number.
pub proof fn law_duration_read_back(seconds: u64)
    ensures
        read_duration(duration_text(seconds as nat)) == Some(seconds as nat),
{
    let n = seconds as nat;
    let t = duration_text(n);
    if n >= 3600 {
        let h = n / 3600;
        let m = (n % 3600) / 60;
        let x = n % 60;
        assert(m < 60 && x < 60 && h <= n);
        assert(h * 3600 + m * 60 + x == n) by (nonlinear_arith)
            requires
                h == n / 3600,
                m == (n % 3600) / 60,
                x == n % 60,
        {}
        let a = decimal(h);
        let b = decimal2(m);
        let c = decimal2(x);
        lemma_decimal_digits(h);
        law_parse_decimal_roundtrip(h as u64);
        lemma_decimal2_digits(m);
        lemma_decimal2_digits(x);
        lemma_digits_lack(a, ':');
        lemma_digits_lack(b, ':');
        lemma_digits_lack(c, ':');
        lemma_split_on_single(a, ':');
        lemma_split_on_single(b, ':');
        lemma_split_on_single(c, ':');
        lemma_split_on_concat(a, b, ':');
        lemma_split_on_concat(a + seq![':'] + b, c, ':');
        assert(t =~= (a + seq![':'] + b) + seq![':'] + c);
        assert(split_on(t, ':') =~= seq![a, b, c]);
        assert(t.last() == c.last());
        assert(is_digit(c[c.len() - 1]));
    } else if n >= 60 {
        let m = n / 60;
        let x = n % 60;
        assert(m * 60 + x == n);
        let a = decimal(m);
        let c = decimal2(x);
        lemma_decimal_digits(m);
        law_parse_decimal_roundtrip(m as u64);
        lemma_decimal2_digits(x);
        lemma_digits_lack(a, ':');
        lemma_digits_lack(c, ':');
        lemma_split_on_single(a, ':');
        lemma_split_on_single(c, ':');
        lemma_split_on_concat(a, c, ':');
        assert(t =~= a + seq![':'] + c);
        assert(split_on(t, ':') =~= seq![a, c]);
        assert(t.last() == c.last());
        assert(is_digit(c[c.len() - 1]));
    } else {
        law_parse_decimal_roundtrip(seconds);
        assert(t.drop_last() =~= decimal(n));
    }
}

/// Different numbers of seconds are shown as different texts.
pub proof fn law_duration_text_injective(a: u64, b: u64)
    requires
        duration_text(a as nat) == duration_text(b as nat),
    ensures
        a == b,
{
    law_duration_read_back(a);
    law_duration_read_back(b);
}

// ---------------------------------------------------------------------------
// The progress template read back
// ---------------------------------------------------------------------------
/// One `key:value` piece of a progress line.
pub open spec fn piece(key: Seq<char>, value: Seq<char>) -> Seq<char> {
    key + seq![':'] + value
}

/// How yt-dlp prints an optional byte count: in decimal, or `NA`.
pub open spec fn printed_count(o: Option<u64>) -> Seq<char> {
    match o {
        Some(t) => decimal(t as nat),
        None => "NA"@,
    }
}

/// The line yt-dlp prints under the progress template that the download
/// arguments ask for (`downloaded:%(…)s|total:%(…)s|speed:%(…)s|eta:%(…)s|pct:%(…)s`),
/// with the given values in place of the fields.
pub open spec fn template_line(
    downloaded: u64,
    total: Option<u64>,
    speed: Seq<char>,
    eta: Seq<char>,
    pct: Seq<char>,
) -> Seq<char> {
    piece("downloaded"@, decimal(downloaded as nat)) + seq!['|'] + piece(
        "total"@,
        printed_count(total),
    ) + seq!['|'] + piece("speed"@, speed) + seq!['|'] + piece("eta"@, eta) + seq!['|'] + piece(
        "pct"@,
        pct,
    )
}

proof fn lemma_lacks_concat(a: Seq<char>, b: Seq<char>, c: char)
    requires
        lacks(a, c),
        lacks(b, c),
    ensures
        lacks(a + b, c),
{
    assert forall|i: int| 0 <= i < (a + b).len() implies (a + b)[i] != c by {
        if i < a.len() {
            assert((a + b)[i] == a[i]);
        } else {
            assert((a + b)[i] == b[i - a.len()]);
        }
    }
}

proof fn lemma_piece_lacks(key: Seq<char>, value: Seq<char>, c: char)
    requires
        lacks(key, c),
        lacks(value, c),
        c != ':',
    ensures
        lacks(piece(key, value), c),
{
    lemma_lacks_concat(key, seq![':'], c);
    lemma_lacks_concat(key + seq![':'], value, c);
}

proof fn lemma_count_text(o: Option<u64>)
    ensures
        lacks(printed_count(o), '|'),
        parse_u64_spec(printed_count(o)) == o,
{
    match o {
        Some(t) => {
            lemma_decimal_digits(t as nat);
            law_parse_decimal_roundtrip(t);
            assert forall|i: int| 0 <= i < decimal(t as nat).len() implies decimal(
                t as nat,
            )[i] != '|' by {
                assert(is_digit(decimal(t as nat)[i]));
            }
        },
        None => {
            reveal_strlit("NA");
            assert(unsigned_digits("NA"@) == "NA"@);
            assert(!is_digit("NA"@[0]));
            assert(!all_digits("NA"@));
        },
    }
}

/// Every line that yt-dlp prints under the progress template is read back
/// exactly: the byte counts it printed, and the speed, remaining-time and
/// percentage texts (the percentage trimmed and without trailing `%`), as
/// long as those texts hold no `|`.
pub proof fn law_template_line_read_back(
    downloaded: u64,
    total: Option<u64>,
    speed: Seq<char>,
    eta: Seq<char>,
    pct: Seq<char>,
)
    requires
        lacks(speed, '|'),
        lacks(eta, '|'),
        lacks(pct, '|'),
    ensures
        progress_spec(template_line(downloaded, total, speed, eta, pct)) == Some(
            ProgressFieldsView {
                downloaded,
                total,
                speed: Some(speed),
                eta: Some(eta),
                pct: Some(strip_trailing(trim_spec(pct), '%')),
            },
        ),
{
    reveal_strlit("downloaded");
    reveal_strlit("total");
    reveal_strlit("speed");
    reveal_strlit("eta");
    reveal_strlit("pct");
    let kd = "downloaded"@;
    let kt = "total"@;
    let ks = "speed"@;
    let ke = "eta"@;
    let kp = "pct"@;
    assert(lacks(kd, ':') && lacks(kd, '|'));
    assert(lacks(kt, ':') && lacks(kt, '|'));
    assert(lacks(ks, ':') && lacks(ks, '|'));
    assert(lacks(ke, ':') && lacks(ke, '|'));
    assert(lacks(kp, ':') && lacks(kp, '|'));
    let vd = decimal(downloaded as nat);
    let vt = printed_count(total);
    lemma_count_text(Some(downloaded));
    lemma_count_text(total);
    let p1 = piece(kd, vd);
    let p2 = piece(kt, vt);
    let p3 = piece(ks, speed);
    let p4 = piece(ke, eta);
    let p5 = piece(kp, pct);
    lemma_piece_lacks(kd, vd, '|');
    lemma_piece_lacks(kt, vt, '|');
    lemma_piece_lacks(ks, speed, '|');
    lemma_piece_lacks(ke, eta, '|');
    lemma_piece_lacks(kp, pct, '|');
    lemma_split_on_single(p1, '|');
    lemma_split_on_single(p2, '|');
    lemma_split_on_single(p3, '|');
    lemma_split_on_single(p4, '|');
    lemma_split_on_single(p5, '|');
    let a2 = p1 + seq!['|'] + p2;
    let a3 = a2 + seq!['|'] + p3;
    let a4 = a3 + seq!['|'] + p4;
    let a5 = a4 + seq!['|'] + p5;
    lemma_split_on_concat(p1, p2, '|');
    lemma_split_on_concat(a2, p3, '|');
    lemma_split_on_concat(a3, p4, '|');
    lemma_split_on_concat(a4, p5, '|');
    let parts = seq![p1, p2, p3, p4, p5];
    assert(split_on(a5, '|') =~= parts);
    assert(a5 == template_line(downloaded, total, speed, eta, pct));
    lemma_split_once_key(kd, vd, ':');
    lemma_split_once_key(kt, vt, ':');
    lemma_split_once_key(ks, speed, ':');
    lemma_split_once_key(ke, eta, ':');
    lemma_split_once_key(kp, pct, ':');
    assert(all_keyed(parts)) by {
        assert forall|i: int| 0 <= i < parts.len() implies (#[trigger] split_once_spec(
            parts[i],
            ':',
        )) is Some by {
            if i == 0 {
            } else if i == 1 {
            } else if i == 2 {
            } else if i == 3 {
            } else {
            }
        }
    }
    assert(kd != kt && kd != ks && kd != ke && kd != kp) by {
        assert(kd.len() != kt.len() && kd.len() != ks.len() && kd.len() != ke.len()
            && kd.len() != kp.len());
    }
    assert(kt != ks && kt != ke && kt != kp) by {
        assert(kt[0] != ks[0]);
        assert(kt.len() != ke.len() && kt.len() != kp.len());
    }
    assert(ks != ke && ks != kp) by {
        assert(ks.len() != ke.len() && ks.len() != kp.len());
    }
    assert(ke != kp) by {
        assert(ke[0] != kp[0]);
    }
    let q4 = parts.drop_last();
    let q3 = q4.drop_last();
    let q2 = q3.drop_last();
    let q1 = q2.drop_last();
    assert(q4 =~= seq![p1, p2, p3, p4]);
    assert(q3 =~= seq![p1, p2, p3]);
    assert(q2 =~= seq![p1, p2]);
    assert(q1 =~= seq![p1]);
    assert(q1.drop_last() =~= Seq::<Seq<char>>::empty());
    assert(field_value(parts, kp) == Some(pct));
    assert(field_value(q4, ke) == Some(eta));
    assert(field_value(parts, ke) == Some(eta));
    assert(field_value(q3, ks) == Some(speed));
    assert(field_value(q4, ks) == Some(speed));
    assert(field_value(parts, ks) == Some(speed));
    assert(field_value(q2, kt) == Some(vt));
    assert(field_value(q3, kt) == Some(vt));
    assert(field_value(q4, kt) == Some(vt));
    assert(field_value(parts, kt) == Some(vt));
    assert(field_value(q1, kd) == Some(vd));
    assert(field_value(q2, kd) == Some(vd));
    assert(field_value(q3, kd) == Some(vd));
    assert(field_value(q4, kd) == Some(vd));
    assert(field_value(parts, kd) == Some(vd));
}


/// A piece added at the end of a readable progress line overrides only
/// the field it names: `total` takes the byte count it holds, `speed` and
/// `eta` take its text, `pct` its text trimmed and without trailing `%`;
/// a piece with any other key but `downloaded` changes nothing.
pub proof fn law_later_piece_overrides(line: Seq<char>, key: Seq<char>, value: Seq<char>)
    requires
        lacks(key, ':'),
        lacks(key, '|'),
        lacks(value, '|'),
        key != "downloaded"@,
        progress_spec(line) is Some,
    ensures
        ({
            let f = progress_spec(line)->0;
            progress_spec(line + seq!['|'] + piece(key, value)) == Some(
                ProgressFieldsView {
                    downloaded: f.downloaded,
                    total: if key == "total"@ {
                        parse_u64_spec(value)
                    } else {
                        f.total
                    },
                    speed: if key == "speed"@ {
                        Some(value)
                    } else {
                        f.speed
                    },
                    eta: if key == "eta"@ {
                        Some(value)
                    } else {
                        f.eta
                    },
                    pct: if key == "pct"@ {
                        Some(strip_trailing(trim_spec(value), '%'))
                    } else {
                        f.pct
                    },
                },
            )
        }),
{
    let p = piece(key, value);
    let parts = split_on(line, '|');
    lemma_piece_lacks(key, value, '|');
    lemma_split_on_single(p, '|');
    lemma_split_on_concat(line, p, '|');
    let parts2 = split_on(line + seq!['|'] + p, '|');
    assert(parts2 == parts.push(p));
    assert(parts2.drop_last() =~= parts);
    lemma_split_once_key(key, value, ':');
    assert(all_keyed(parts2)) by {
        assert forall|i: int| 0 <= i < parts2.len() implies (#[trigger] split_once_spec(parts2[i], ':')) is Some by {
            if i < parts.len() {
                assert(parts2[i] == parts[i]);
            }
        }
    }
}

} // verus!
