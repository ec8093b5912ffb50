//! Character-level text helpers shared by the rest of the library.
//!
//! Text is handled as `Vec<char>` inside the library and modelled as
//! `Seq<char>` in specifications; `&str` and `String` appear only at the
//! public boundary.
use vstd::prelude::*;

verus! {

// ---------------------------------------------------------------------------
// Conversions between `str`/`String` and character vectors
// ---------------------------------------------------------------------------
/// The characters of `s`, in order.
pub fn chars_of(s: &str) -> (v: Vec<char>)
    ensures
        v@ == s@,
{
    let mut v: Vec<char> = Vec::new();
    for c in it: s.chars()
        invariant
            v@ == it.seq().take(it.index() as int),
    {
        v.push(c);
    }
    v
}

/// The characters of an optional string.
pub open spec fn opt_chars(o: Option<String>) -> Option<Seq<char>> {
    match o {
        Some(s) => Some(s@),
        None => None,
    }
}

/// Collects characters into a `String` (`String::from_iter` over `&char`).
///
/// Trusted: std documents that collecting an iterator of characters into a
/// `String` yields exactly those characters in order; that is all this claims.
#[verifier::external_body]
pub(crate) fn string_of(v: &Vec<char>) -> (s: String)
    ensures
        s@ == v@,
{
    String::from_iter(v)
}

/// An owned copy of `s`.
pub fn owned(s: &str) -> (r: String)
    ensures
        r@ == s@,
{
    s.to_owned()
}

/// Appends the characters of `s` to `v`.
pub fn push_str(v: &mut Vec<char>, s: &str)
    ensures
        final(v)@ == old(v)@ + s@,
{
    let ghost start = v@;
    for c in it: s.chars()
        invariant
            v@ == start + it.seq().take(it.index() as int),
    {
        v.push(c);
    }
}

/// Whether two strings hold the same characters.
pub fn str_eq(a: &str, b: &str) -> (r: bool)
    ensures
        r == (a@ == b@),
{
    let va = chars_of(a);
    let vb = chars_of(b);
    chars_eq(&va, &vb)
}

/// Whether two character vectors are equal.
pub fn chars_eq(a: &Vec<char>, b: &Vec<char>) -> (r: bool)
    ensures
        r == (a@ == b@),
{
    if a.len() != b.len() {
        return false;
    }
    let mut i: usize = 0;
    while i < a.len()
        invariant
            a@.len() == b@.len(),
            i <= a@.len(),
            forall|k: int| 0 <= k < i ==> a@[k] == b@[k],
        decreases a@.len() - i,
    {
        if a[i] != b[i] {
            return false;
        }
        i = i + 1;
    }
    assert(a@ =~= b@);
    true
}

// ---------------------------------------------------------------------------
// Prefixes, suffixes, substrings
// ---------------------------------------------------------------------------
/// `needle` occurs in `hay` starting at index `i`.
pub open spec fn occurs_at(hay: Seq<char>, needle: Seq<char>, i: int) -> bool {
    &&& 0 <= i
    &&& i + needle.len() <= hay.len()
    &&& hay.subrange(i, i + needle.len()) == needle
}

/// `needle` occurs somewhere in `hay` (what `str::contains` tests).
pub open spec fn contains_seq(hay: Seq<char>, needle: Seq<char>) -> bool {
    exists|i: int| occurs_at(hay, needle, i)
}

/// `s` ends with `suffix` (what `str::ends_with` tests).
pub open spec fn ends_with_seq(s: Seq<char>, suffix: Seq<char>) -> bool {
    suffix.len() <= s.len() && s.subrange(s.len() - suffix.len(), s.len() as int) == suffix
}

/// Whether `needle` occurs at index `i` of `hay`.
fn occurs_at_exec(hay: &Vec<char>, needle: &Vec<char>, i: usize) -> (r: bool)
    ensures
        r == occurs_at(hay@, needle@, i as int),
{
    if i > hay.len() || needle.len() > hay.len() - i {
        return false;
    }
    let mut k: usize = 0;
    while k < needle.len()
        invariant
            i + needle@.len() <= hay@.len(),
            hay@.len() == hay.len(),
            k <= needle@.len(),
            forall|j: int| 0 <= j < k ==> hay@[i + j] == needle@[j],
        decreases needle@.len() - k,
    {
        if hay[i + k] != needle[k] {
            assert(hay@.subrange(i as int, i + needle@.len())[k as int] != needle@[k as int]);
            return false;
        }
        k = k + 1;
    }
    assert(hay@.subrange(i as int, i + needle@.len()) =~= needle@);
    true
}

/// Whether `needle` occurs in `hay`.
pub fn contains_chars(hay: &Vec<char>, needle: &Vec<char>) -> (r: bool)
    ensures
        r == contains_seq(hay@, needle@),
{
    if needle.len() > hay.len() {
        return false;
    }
    if needle.len() == 0 {
        assert(hay@.subrange(0, 0) =~= needle@);
        assert(occurs_at(hay@, needle@, 0));
        return true;
    }
    let last = hay.len() - needle.len();
    let mut i: usize = 0;
    while i <= last
        invariant
            last + needle@.len() == hay@.len(),
            needle@.len() > 0,
            last < hay.len(),
            i <= last + 1,
            forall|j: int| 0 <= j < i ==> !occurs_at(hay@, needle@, j),
        decreases last + 1 - i,
    {
        if occurs_at_exec(hay, needle, i) {
            return true;
        }
        i = i + 1;
    }
    assert forall|j: int| !occurs_at(hay@, needle@, j) by {
        if 0 <= j && j + needle@.len() <= hay@.len() {
            assert(j <= last);
        }
    }
    false
}

/// Whether `s` ends with `suffix`.
pub fn ends_with_str(s: &str, suffix: &str) -> (r: bool)
    ensures
        r == ends_with_seq(s@, suffix@),
{
    let vs = chars_of(s);
    let vx = chars_of(suffix);
    if vx.len() > vs.len() {
        return false;
    }
    let off = vs.len() - vx.len();
    let r = occurs_at_exec(&vs, &vx, off);
    r
}

// ---------------------------------------------------------------------------
// Whitespace and trimming
// ---------------------------------------------------------------------------
/// The Unicode `White_Space` property, which `char::is_whitespace` tests.
pub open spec fn is_space(c: char) -> bool {
    let u = c as u32;
    ||| 0x09 <= u <= 0x0d
    ||| u == 0x20
    ||| u == 0x85
    ||| u == 0xa0
    ||| u == 0x1680
    ||| 0x2000 <= u <= 0x200a
    ||| u == 0x2028
    ||| u == 0x2029
    ||| u == 0x202f
    ||| u == 0x205f
    ||| u == 0x3000
}

/// Whether `c` is Unicode white space.
pub fn is_space_char(c: char) -> (r: bool)
    ensures
        r == is_space(c),
{
    let u = c as u32;
    (0x09 <= u && u <= 0x0d) || u == 0x20 || u == 0x85 || u == 0xa0 || u == 0x1680 || (0x2000
        <= u && u <= 0x200a) || u == 0x2028 || u == 0x2029 || u == 0x202f || u == 0x205f || u
        == 0x3000
}

/// `s` without its leading white space.
pub open spec fn trim_start_spec(s: Seq<char>) -> Seq<char>
    decreases s.len(),
{
    if s.len() > 0 && is_space(s[0]) {
        trim_start_spec(s.drop_first())
    } else {
        s
    }
}

/// `s` without its trailing white space.
pub open spec fn trim_end_spec(s: Seq<char>) -> Seq<char>
    decreases s.len(),
{
    if s.len() > 0 && is_space(s.last()) {
        trim_end_spec(s.drop_last())
    } else {
        s
    }
}

/// `s` without leading and trailing white space (what `str::trim` returns).
pub open spec fn trim_spec(s: Seq<char>) -> Seq<char> {
    trim_end_spec(trim_start_spec(s))
}

/// The characters of `s[from..to]`.
pub fn slice_chars(s: &Vec<char>, from: usize, to: usize) -> (r: Vec<char>)
    requires
        from <= to <= s@.len(),
    ensures
        r@ == s@.subrange(from as int, to as int),
{
    let mut r: Vec<char> = Vec::new();
    let mut i = from;
    while i < to
        invariant
            from <= i <= to <= s@.len(),
            r@ == s@.subrange(from as int, i as int),
        decreases to - i,
    {
        r.push(s[i]);
        i = i + 1;
        assert(s@.subrange(from as int, i as int) == s@.subrange(from as int, i - 1).push(
            s@[i - 1],
        ));
    }
    r
}

/// `s` without leading and trailing white space.
pub fn trim_chars(s: &Vec<char>) -> (r: Vec<char>)
    ensures
        r@ == trim_spec(s@),
{
    let n = s.len();
    let mut start: usize = 0;
    assert(s@.subrange(0, n as int) =~= s@);
    while start < n && is_space_char(s[start])
        invariant
            n == s@.len(),
            start <= n,
            trim_start_spec(s@) == trim_start_spec(s@.subrange(start as int, n as int)),
        decreases n - start,
    {
        let ghost sub = s@.subrange(start as int, n as int);
        assert(sub.drop_first() =~= s@.subrange(start + 1, n as int));
        start = start + 1;
    }
    let ghost t = s@.subrange(start as int, n as int);
    assert(trim_start_spec(t) == t);
    assert(trim_start_spec(s@) == t) by {
        assert(s@.subrange(start as int, n as int) == t);
    }
    let mut end: usize = n;
    while end > start && is_space_char(s[end - 1])
        invariant
            start <= end <= n == s@.len(),
            t == s@.subrange(start as int, n as int),
            trim_end_spec(t) == trim_end_spec(s@.subrange(start as int, end as int)),
        decreases end,
    {
        let ghost sub = s@.subrange(start as int, end as int);
        assert(sub.drop_last() =~= s@.subrange(start as int, end - 1));
        end = end - 1;
    }
    slice_chars(s, start, end)
}

/// `s` without trailing copies of `c` (what `str::trim_end_matches(c)` returns).
pub open spec fn strip_trailing(s: Seq<char>, c: char) -> Seq<char>
    decreases s.len(),
{
    if s.len() > 0 && s.last() == c {
        strip_trailing(s.drop_last(), c)
    } else {
        s
    }
}

/// `s` without trailing copies of `c`.
pub fn strip_trailing_chars(s: &Vec<char>, c: char) -> (r: Vec<char>)
    ensures
        r@ == strip_trailing(s@, c),
{
    let mut end: usize = s.len();
    assert(s@.subrange(0, end as int) =~= s@);
    while end > 0 && s[end - 1] == c
        invariant
            end <= s@.len(),
            strip_trailing(s@, c) == strip_trailing(s@.subrange(0, end as int), c),
        decreases end,
    {
        assert(s@.subrange(0, end as int).drop_last() =~= s@.subrange(0, end - 1));
        end = end - 1;
    }
    assert(s@.subrange(0, end as int) == s@.subrange(0, end as int));
    slice_chars(s, 0, end)
}

// ---------------------------------------------------------------------------
// ASCII case folding
// ---------------------------------------------------------------------------
/// `c` with ASCII upper case letters mapped to lower case.
pub open spec fn ascii_lower(c: char) -> char {
    if 'A' <= c <= 'Z' {
        ((c as u32) + 32) as char
    } else {
        c
    }
}

/// Every character of `s` mapped by [`ascii_lower`].
pub open spec fn ascii_lower_seq(s: Seq<char>) -> Seq<char> {
    s.map_values(|c: char| ascii_lower(c))
}

/// `s` with ASCII upper case letters mapped to lower case.
pub fn ascii_lower_chars(s: &Vec<char>) -> (r: Vec<char>)
    ensures
        r@ == ascii_lower_seq(s@),
{
    let mut r: Vec<char> = Vec::new();
    let mut i: usize = 0;
    while i < s.len()
        invariant
            i <= s@.len(),
            r@ == ascii_lower_seq(s@.take(i as int)),
        decreases s@.len() - i,
    {
        let c = s[i];
        let l = if 'A' <= c && c <= 'Z' {
            let u = (c as u32) + 32;
            assert(0x61 <= u <= 0x7a);
            char_from_ascii(u)
        } else {
            c
        };
        r.push(l);
        i = i + 1;
        assert(ascii_lower_seq(s@.take(i as int)) =~= ascii_lower_seq(s@.take(i - 1)).push(
            ascii_lower(s@[i - 1]),
        ));
    }
    assert(s@.take(s@.len() as int) == s@);
    r
}

/// The character with ASCII code `u`.
fn char_from_ascii(u: u32) -> (c: char)
    requires
        u < 0x80,
    ensures
        c == u as char,
        c as u32 == u,
{
    let b = u as u8;
    b as char
}

} // verus!

verus! {

// ---------------------------------------------------------------------------
// Splitting
// ---------------------------------------------------------------------------
/// The pieces of `s` between occurrences of `sep` (what `str::split(sep)`
/// yields): always at least one piece, empty pieces included.
pub open spec fn split_on(s: Seq<char>, sep: char) -> Seq<Seq<char>>
    decreases s.len(),
{
    if s.len() == 0 {
        seq![Seq::<char>::empty()]
    } else {
        let prev = split_on(s.drop_last(), sep);
        if s.last() == sep {
            prev.push(Seq::<char>::empty())
        } else {
            prev.update(prev.len() - 1, prev.last().push(s.last()))
        }
    }
}

/// `split_on` always yields at least one piece.
pub proof fn lemma_split_on_nonempty(s: Seq<char>, sep: char)
    ensures
        split_on(s, sep).len() >= 1,
    decreases s.len(),
{
    if s.len() > 0 {
        lemma_split_on_nonempty(s.drop_last(), sep);
    }
}

/// The text before and after the first `c` in `s`, if there is one (what
/// `str::split_once(c)` returns).
pub open spec fn split_once_spec(s: Seq<char>, c: char) -> Option<(Seq<char>, Seq<char>)>
    decreases s.len(),
{
    if s.len() == 0 {
        None
    } else if s[0] == c {
        Some((Seq::<char>::empty(), s.drop_first()))
    } else {
        match split_once_spec(s.drop_first(), c) {
            Some((k, v)) => Some((seq![s[0]] + k, v)),
            None => None,
        }
    }
}

proof fn lemma_split_once_at(s: Seq<char>, c: char, i: int)
    requires
        0 <= i < s.len(),
        s[i] == c,
        forall|k: int| 0 <= k < i ==> s[k] != c,
    ensures
        split_once_spec(s, c) == Some((s.take(i), s.skip(i + 1))),
    decreases i,
{
    if i == 0 {
        assert(s.take(0) =~= Seq::<char>::empty());
        assert(s.skip(1) =~= s.drop_first());
    } else {
        let t = s.drop_first();
        assert forall|k: int| 0 <= k < i - 1 implies t[k] != c by {
            assert(t[k] == s[k + 1]);
        }
        lemma_split_once_at(t, c, i - 1);
        assert(seq![s[0]] + t.take(i - 1) =~= s.take(i));
        assert(t.skip(i) =~= s.skip(i + 1));
    }
}

proof fn lemma_split_once_none(s: Seq<char>, c: char)
    requires
        forall|k: int| 0 <= k < s.len() ==> s[k] != c,
    ensures
        split_once_spec(s, c) is None,
    decreases s.len(),
{
    if s.len() > 0 {
        let t = s.drop_first();
        assert forall|k: int| 0 <= k < t.len() implies t[k] != c by {
            assert(t[k] == s[k + 1]);
        }
        lemma_split_once_none(t, c);
    }
}

/// Splits `s` at its first `c`.
pub fn split_once_chars(s: &Vec<char>, c: char) -> (r: Option<(Vec<char>, Vec<char>)>)
    ensures
        match r {
            Some((k, v)) => split_once_spec(s@, c) == Some((k@, v@)),
            None => split_once_spec(s@, c) is None,
        },
{
    let mut i: usize = 0;
    while i < s.len()
        invariant
            i <= s@.len(),
            forall|k: int| 0 <= k < i ==> s@[k] != c,
        decreases s@.len() - i,
    {
        if s[i] == c {
            proof {
                lemma_split_once_at(s@, c, i as int);
            }
            let k = slice_chars(s, 0, i);
            let v = slice_chars(s, i + 1, s.len());
            assert(s@.subrange(0, i as int) =~= s@.take(i as int));
            assert(s@.subrange(i + 1, s@.len() as int) =~= s@.skip(i + 1));
            return Some((k, v));
        }
        i = i + 1;
    }
    proof {
        lemma_split_once_none(s@, c);
    }
    None
}

/// The character sequences held by a vector of character vectors.
pub open spec fn seqs_view(v: Seq<Vec<char>>) -> Seq<Seq<char>> {
    v.map_values(|x: Vec<char>| x@)
}

/// Splits `s` at every `sep`.
pub fn split_chars(s: &Vec<char>, sep: char) -> (r: Vec<Vec<char>>)
    ensures
        seqs_view(r@) == split_on(s@, sep),
{
    let mut parts: Vec<Vec<char>> = Vec::new();
    let mut cur: Vec<char> = Vec::new();
    let mut i: usize = 0;
    assert(s@.take(0) =~= Seq::<char>::empty());
    assert(seqs_view(parts@).push(cur@) =~= split_on(s@.take(0), sep));
    while i < s.len()
        invariant
            i <= s@.len(),
            split_on(s@.take(i as int), sep) == seqs_view(parts@).push(cur@),
        decreases s@.len() - i,
    {
        let c = s[i];
        let ghost before = s@.take(i as int);
        let ghost after = s@.take(i + 1);
        assert(after.drop_last() =~= before);
        assert(after.last() == c);
        let ghost prev = split_on(before, sep);
        if c == sep {
            parts.push(cur);
            cur = Vec::new();
            assert(seqs_view(parts@).push(cur@) =~= prev.push(Seq::<char>::empty()));
        } else {
            cur.push(c);
            assert(seqs_view(parts@).push(cur@) =~= prev.update(
                prev.len() - 1,
                prev.last().push(c),
            ));
        }
        i = i + 1;
    }
    assert(s@.take(s@.len() as int) =~= s@);
    parts.push(cur);
    parts
}

} // verus!

verus! {

/// `c` does not occur in `s`.
pub open spec fn lacks(s: Seq<char>, c: char) -> bool {
    forall|i: int| 0 <= i < s.len() ==> s[i] != c
}

/// A text without the separator is a single piece.
pub proof fn lemma_split_on_single(s: Seq<char>, sep: char)
    requires
        lacks(s, sep),
    ensures
        split_on(s, sep) == seq![s],
    decreases s.len(),
{
    if s.len() > 0 {
        assert(lacks(s.drop_last(), sep)) by {
            assert forall|i: int| 0 <= i < s.drop_last().len() implies s.drop_last()[i] != sep by {
                assert(s.drop_last()[i] == s[i]);
            }
        }
        lemma_split_on_single(s.drop_last(), sep);
        assert(s.last() != sep);
        assert(s.drop_last().push(s.last()) =~= s);
        assert(split_on(s, sep) =~= seq![s]);
    } else {
        assert(s =~= Seq::<char>::empty());
        assert(split_on(s, sep) =~= seq![s]);
    }
}

/// Splitting text joined by the separator splits each side.
pub proof fn lemma_split_on_concat(x: Seq<char>, y: Seq<char>, sep: char)
    ensures
        split_on(x + seq![sep] + y, sep) == split_on(x, sep) + split_on(y, sep),
    decreases y.len(),
{
    lemma_split_on_nonempty(x, sep);
    lemma_split_on_nonempty(y, sep);
    let s = x + seq![sep] + y;
    if y.len() == 0 {
        assert(s.drop_last() =~= x);
        assert(split_on(s, sep) =~= split_on(x, sep) + split_on(y, sep));
    } else {
        lemma_split_on_concat(x, y.drop_last(), sep);
        assert(s.drop_last() =~= x + seq![sep] + y.drop_last());
        lemma_split_on_nonempty(y.drop_last(), sep);
        assert(split_on(s, sep) =~= split_on(x, sep) + split_on(y, sep));
    }
}

/// A piece `key:value` whose key has no colon splits into key and value.
pub proof fn lemma_split_once_key(key: Seq<char>, value: Seq<char>, c: char)
    requires
        lacks(key, c),
    ensures
        split_once_spec(key + seq![c] + value, c) == Some((key, value)),
{
    let s = key + seq![c] + value;
    assert forall|k: int| 0 <= k < key.len() implies s[k] != c by {
        assert(s[k] == key[k]);
    }
    lemma_split_once_at(s, c, key.len() as int);
    assert(s.take(key.len() as int) =~= key);
    assert(s.skip(key.len() as int + 1) =~= value);
}


/// Splitting at the first `c` cuts the text into the part before the
/// first `c`, which holds no `c`, and the rest after it; there is nothing
/// to split exactly when the text holds no `c`.
pub proof fn law_split_once_parts(s: Seq<char>, c: char)
    ensures
        split_once_spec(s, c) is None <==> lacks(s, c),
        split_once_spec(s, c) matches Some((a, b)) ==> s == a + seq![c] + b && lacks(a, c),
    decreases s.len(),
{
    if s.len() > 0 {
        let t = s.drop_first();
        law_split_once_parts(t, c);
        if s[0] == c {
            assert(s =~= Seq::<char>::empty() + seq![c] + t);
        } else {
            match split_once_spec(t, c) {
                Some((a, b)) => {
                    assert(t == a + seq![c] + b);
                    assert(s =~= seq![s[0]] + t);
                    assert(s =~= (seq![s[0]] + a) + seq![c] + b);
                    assert(lacks(seq![s[0]] + a, c)) by {
                        assert forall|i: int| 0 <= i < a.len() + 1 implies (seq![s[0]] + a)[i] != c by {
                            if i > 0 {
                                assert((seq![s[0]] + a)[i] == a[i - 1]);
                            }
                        }
                    }
                },
                None => {
                    assert forall|i: int| 0 <= i < s.len() implies s[i] != c by {
                        if i > 0 {
                            assert(s[i] == t[i - 1]);
                        }
                    }
                },
            }
            if lacks(s, c) {
                assert forall|i: int| 0 <= i < t.len() implies t[i] != c by {
                    assert(t[i] == s[i + 1]);
                }
            }
        }
    }
}

/// The pieces joined back together with `sep` between each two of them.
pub open spec fn join_with(pieces: Seq<Seq<char>>, sep: char) -> Seq<char>
    decreases pieces.len(),
{
    if pieces.len() <= 1 {
        if pieces.len() == 1 {
            pieces[0]
        } else {
            Seq::empty()
        }
    } else {
        join_with(pieces.drop_last(), sep) + seq![sep] + pieces.last()
    }
}

/// Splitting at every `sep` gives pieces without `sep` that, joined back
/// with `sep`, give the text again.
pub proof fn law_split_on_pieces(s: Seq<char>, sep: char)
    ensures
        join_with(split_on(s, sep), sep) == s,
        forall|k: int| 0 <= k < split_on(s, sep).len() ==> lacks(#[trigger] split_on(s, sep)[k], sep),
    decreases s.len(),
{
    if s.len() == 0 {
        assert(split_on(s, sep) =~= seq![Seq::<char>::empty()]);
        assert(s =~= Seq::<char>::empty());
    } else {
        let t = s.drop_last();
        law_split_on_pieces(t, sep);
        lemma_split_on_nonempty(t, sep);
        let prev = split_on(t, sep);
        let cur = split_on(s, sep);
        if s.last() == sep {
            assert(cur.drop_last() =~= prev);
            assert(s =~= t + seq![sep] + Seq::<char>::empty());
            assert forall|k: int| 0 <= k < cur.len() implies lacks(#[trigger] cur[k], sep) by {
                if k < prev.len() {
                    assert(cur[k] == prev[k]);
                }
            }
        } else {
            let last = prev.last().push(s.last());
            assert(cur.last() == last);
            assert forall|k: int| 0 <= k < cur.len() implies lacks(#[trigger] cur[k], sep) by {
                if k < prev.len() - 1 {
                    assert(cur[k] == prev[k]);
                } else {
                    assert(lacks(prev[prev.len() - 1], sep));
                    assert forall|i: int| 0 <= i < last.len() implies last[i] != sep by {
                        if i < last.len() - 1 {
                            assert(last[i] == prev.last()[i]);
                        }
                    }
                }
            }
            if prev.len() == 1 {
                assert(cur.len() == 1);
                assert(join_with(prev, sep) == prev[0]);
                assert(t =~= prev[0]);
                assert(s =~= t.push(s.last()));
            } else {
                assert(cur.drop_last() =~= prev.drop_last());
                assert(join_with(prev, sep) == join_with(prev.drop_last(), sep) + seq![sep] + prev.last());
                assert(s =~= t.push(s.last()));
                assert(join_with(cur, sep) =~= join_with(prev.drop_last(), sep) + seq![sep] + last);
                assert(s =~= join_with(prev.drop_last(), sep) + seq![sep] + last);
            }
        }
    }
}

/// Trimming keeps a contiguous piece of the text: everything before and
/// after it is white space, and a non-empty result neither starts nor ends
/// with white space.
pub proof fn law_trim_shape(s: Seq<char>)
    ensures
        exists|a: int, b: int|
            #![trigger s.subrange(a, b)]
            0 <= a <= b <= s.len() && trim_spec(s) == s.subrange(a, b) && (forall|j: int|
                0 <= j < a ==> is_space(#[trigger] s[j])) && (forall|j: int|
                b <= j < s.len() ==> is_space(#[trigger] s[j])) && (a < b ==> !is_space(s[a])
                && !is_space(s[b - 1])),
{
    let a = lemma_trim_start_shape(s);
    let u = trim_start_spec(s);
    let b = lemma_trim_end_shape(u);
    assert(trim_spec(s) == u.subrange(0, b));
    assert(u.subrange(0, b) =~= s.subrange(a, a + b));
    assert forall|j: int| a + b <= j < s.len() implies is_space(#[trigger] s[j]) by {
        assert(s[j] == u[j - a]);
    }
    if b > 0 {
        assert(s[a] == u[0]);
        assert(s[a + b - 1] == u[b - 1]);
    }
    assert(s.subrange(a, a + b) == trim_spec(s));
}

proof fn lemma_trim_start_shape(s: Seq<char>) -> (a: int)
    ensures
        0 <= a <= s.len(),
        trim_start_spec(s) == s.subrange(a, s.len() as int),
        forall|j: int| 0 <= j < a ==> is_space(#[trigger] s[j]),
        a < s.len() ==> !is_space(s[a]),
    decreases s.len(),
{
    if s.len() > 0 && is_space(s[0]) {
        let t = s.drop_first();
        let a0 = lemma_trim_start_shape(t);
        assert(t.subrange(a0, t.len() as int) =~= s.subrange(a0 + 1, s.len() as int));
        assert forall|j: int| 0 <= j < a0 + 1 implies is_space(#[trigger] s[j]) by {
            if j > 0 {
                assert(s[j] == t[j - 1]);
            }
        }
        if a0 + 1 < s.len() {
            assert(s[a0 + 1] == t[a0]);
        }
        a0 + 1
    } else {
        assert(s.subrange(0, s.len() as int) =~= s);
        0
    }
}

proof fn lemma_trim_end_shape(s: Seq<char>) -> (b: int)
    ensures
        0 <= b <= s.len(),
        trim_end_spec(s) == s.subrange(0, b),
        forall|j: int| b <= j < s.len() ==> is_space(#[trigger] s[j]),
        b > 0 ==> !is_space(s[b - 1]),
    decreases s.len(),
{
    if s.len() > 0 && is_space(s.last()) {
        let t = s.drop_last();
        let b0 = lemma_trim_end_shape(t);
        assert(t.subrange(0, b0) =~= s.subrange(0, b0));
        assert forall|j: int| b0 <= j < s.len() implies is_space(#[trigger] s[j]) by {
            if j < s.len() - 1 {
                assert(s[j] == t[j]);
            }
        }
        if b0 > 0 {
            assert(s[b0 - 1] == t[b0 - 1]);
        }
        b0
    } else {
        assert(s.subrange(0, s.len() as int) =~= s);
        s.len() as int
    }
}

} // verus!
