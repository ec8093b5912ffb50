//! The bookkeeping of running downloads: which yt-dlp processes are active,
//! under which download identifier, and which downloads the user cancelled.
use vstd::prelude::*;
use crate::text::str_eq;

verus! {

// ---------------------------------------------------------------------------
// Active processes
// ---------------------------------------------------------------------------
/// No identifier occurs twice among the entries.
pub open spec fn distinct_keys<C>(s: Seq<(String, C)>) -> bool {
    forall|i: int, j: int| 0 <= i < j < s.len() ==> s[i].0@ != s[j].0@
}

/// The map from identifiers to processes that the entries describe.
pub open spec fn entries_map<C>(s: Seq<(String, C)>) -> Map<Seq<char>, C>
    decreases s.len(),
{
    if s.len() == 0 {
        Map::empty()
    } else {
        entries_map(s.drop_last()).insert(s.last().0@, s.last().1)
    }
}

proof fn lemma_entries_dom<C>(s: Seq<(String, C)>, k: Seq<char>)
    ensures
        entries_map(s).contains_key(k) <==> exists|i: int| 0 <= i < s.len() && s[i].0@ == k,
    decreases s.len(),
{
    if s.len() > 0 {
        lemma_entries_dom(s.drop_last(), k);
        if entries_map(s).contains_key(k) && k != s.last().0@ {
            let i = choose|i: int| 0 <= i < s.len() - 1 && s.drop_last()[i].0@ == k;
            assert(s[i].0@ == k);
        }
        if exists|i: int| 0 <= i < s.len() && s[i].0@ == k {
            let i = choose|i: int| 0 <= i < s.len() && s[i].0@ == k;
            if i < s.len() - 1 {
                assert(s.drop_last()[i].0@ == k);
            }
        }
    }
}

proof fn lemma_entries_value<C>(s: Seq<(String, C)>, i: int)
    requires
        distinct_keys(s),
        0 <= i < s.len(),
    ensures
        entries_map(s).contains_key(s[i].0@),
        entries_map(s)[s[i].0@] == s[i].1,
    decreases s.len(),
{
    if i < s.len() - 1 {
        lemma_entries_value(s.drop_last(), i);
    }
}

proof fn lemma_entries_remove<C>(s: Seq<(String, C)>, i: int)
    requires
        distinct_keys(s),
        0 <= i < s.len(),
    ensures
        entries_map(s.remove(i)) == entries_map(s).remove(s[i].0@),
        distinct_keys(s.remove(i)),
    decreases s.len(),
{
    let k = s[i].0@;
    let p = s.drop_last();
    if i == s.len() - 1 {
        assert(s.remove(i) =~= p);
        lemma_entries_dom(p, k);
        assert(entries_map(p) =~= entries_map(s).remove(k));
    } else {
        lemma_entries_remove(p, i);
        assert(s.remove(i) =~= p.remove(i).push(s.last()));
        assert(s.remove(i).drop_last() =~= p.remove(i));
        assert(entries_map(s.remove(i)) =~= entries_map(s).remove(k));
    }
}

/// Taking the process of download `id` out of table `m`: the table left,
/// and the process that was recorded under `id`, if any.
pub open spec fn take_spec<C>(m: Map<Seq<char>, C>, id: Seq<char>) -> (Map<Seq<char>, C>, Option<C>) {
    (
        m.remove(id),
        if m.contains_key(id) {
            Some(m[id])
        } else {
            None
        },
    )
}

/// Recording `child` under `id` in table `m`: the new table, and the
/// process that was recorded under `id` before, if any.
pub open spec fn record_spec<C>(m: Map<Seq<char>, C>, id: Seq<char>, child: C) -> (
    Map<Seq<char>, C>,
    Option<C>,
) {
    (m.insert(id, child), take_spec(m, id).1)
}

/// The running yt-dlp processes, each under the identifier of its download.
pub struct ActiveDownloads<C> {
    entries: Vec<(String, C)>,
}

impl<C> View for ActiveDownloads<C> {
    type V = Map<Seq<char>, C>;

    /// The processes by download identifier.
    closed spec fn view(&self) -> Map<Seq<char>, C> {
        entries_map(self.entries@)
    }
}

impl<C> ActiveDownloads<C> {
    #[verifier::type_invariant]
    spec fn well_formed(self) -> bool {
        distinct_keys(self.entries@)
    }

    /// No download is running.
    pub fn new() -> (r: Self)
        ensures
            r.view() == Map::<Seq<char>, C>::empty(),
    {
        ActiveDownloads { entries: Vec::new() }
    }

    /// The position of the entry for `id`, if there is one.
    fn find(&self, id: &str) -> (r: Option<usize>)
        ensures
            match r {
                Some(i) => i < self.entries@.len() && self.entries@[i as int].0@ == id@,
                None => forall|j: int|
                    0 <= j < self.entries@.len() ==> self.entries@[j].0@ != id@,
            },
    {
        let mut i: usize = 0;
        while i < self.entries.len()
            invariant
                i <= self.entries@.len(),
                forall|j: int| 0 <= j < i ==> self.entries@[j].0@ != id@,
            decreases self.entries@.len() - i,
        {
            if str_eq(self.entries[i].0.as_str(), id) {
                return Some(i);
            }
            i = i + 1;
        }
        None
    }

    /// Takes the process of download `id` out of the table.
    pub fn remove(&mut self, id: &str) -> (r: Option<C>)
        ensures
            (final(self).view(), r) == take_spec(old(self).view(), id@),
    {
        proof {
            use_type_invariant(&*self);
            lemma_entries_dom(self.entries@, id@);
        }
        match self.find(id) {
            Some(i) => {
                proof {
                    lemma_entries_value(self.entries@, i as int);
                    lemma_entries_remove(self.entries@, i as int);
                }
                let mut entries: Vec<(String, C)> = Vec::new();
                std::mem::swap(&mut entries, &mut self.entries);
                let (_, c) = entries.remove(i);
                self.entries = entries;
                Some(c)
            },
            None => {
                assert(self.view().remove(id@) =~= self.view());
                None
            },
        }
    }

    /// Records `child` as the process of download `id`; a process already
    /// recorded under `id` is handed back.
    pub fn insert(&mut self, id: String, child: C) -> (r: Option<C>)
        ensures
            (final(self).view(), r) == record_spec(old(self).view(), id@, child),
    {
        let previous = self.remove(id.as_str());
        proof {
            use_type_invariant(&*self);
            lemma_entries_dom(self.entries@, id@);
        }
        let ghost before = self.entries@;
        let mut entries: Vec<(String, C)> = Vec::new();
        std::mem::swap(&mut entries, &mut self.entries);
        entries.push((id, child));
        proof {
            assert(entries@.drop_last() =~= before);
            assert(distinct_keys(entries@)) by {
                assert forall|i: int, j: int|
                    0 <= i < j < entries@.len() implies entries@[i].0@ != entries@[j].0@ by {
                    if j == entries@.len() - 1 {
                        assert(!entries_map(before).contains_key(id@));
                        assert(before[i] == entries@[i]);
                    } else {
                        assert(before[i] == entries@[i] && before[j] == entries@[j]);
                    }
                }
            }
        }
        self.entries = entries;
        proof {
            assert(self.entries@.drop_last() =~= before);
            assert(self.view() =~= old(self).view().insert(id@, child));
        }
        previous
    }
}

// ---------------------------------------------------------------------------
// Cancelled downloads
// ---------------------------------------------------------------------------
/// The identifiers held by a vector of strings.
pub open spec fn id_set(s: Seq<String>) -> Set<Seq<char>> {
    Set::new(|k: Seq<char>| exists|i: int| 0 <= i < s.len() && s[i]@ == k)
}

/// The downloads that the user cancelled.
pub struct CancelledIds {
    ids: Vec<String>,
}

impl View for CancelledIds {
    type V = Set<Seq<char>>;

    /// The identifiers of the cancelled downloads.
    closed spec fn view(&self) -> Set<Seq<char>> {
        id_set(self.ids@)
    }
}

impl CancelledIds {
    #[verifier::type_invariant]
    spec fn well_formed(self) -> bool {
        forall|i: int, j: int| 0 <= i < j < self.ids@.len() ==> self.ids@[i]@ != self.ids@[j]@
    }

    /// No download is cancelled.
    pub fn new() -> (r: Self)
        ensures
            r.view() == Set::<Seq<char>>::empty(),
    {
        let r = CancelledIds { ids: Vec::new() };
        assert(r.view() =~= Set::<Seq<char>>::empty());
        r
    }

    fn find(&self, id: &str) -> (r: Option<usize>)
        ensures
            match r {
                Some(i) => i < self.ids@.len() && self.ids@[i as int]@ == id@,
                None => forall|j: int| 0 <= j < self.ids@.len() ==> self.ids@[j]@ != id@,
            },
    {
        let mut i: usize = 0;
        while i < self.ids.len()
            invariant
                i <= self.ids@.len(),
                forall|j: int| 0 <= j < i ==> self.ids@[j]@ != id@,
            decreases self.ids@.len() - i,
        {
            if str_eq(self.ids[i].as_str(), id) {
                return Some(i);
            }
            i = i + 1;
        }
        None
    }

    /// Whether download `id` was cancelled.
    pub fn contains(&self, id: &str) -> (r: bool)
        ensures
            r == self.view().contains(id@),
    {
        match self.find(id) {
            Some(_) => true,
            None => false,
        }
    }

    /// Marks download `id` as cancelled.
    pub fn insert(&mut self, id: String)
        ensures
            final(self).view() == old(self).view().insert(id@),
    {
        proof {
            use_type_invariant(&*self);
        }
        match self.find(id.as_str()) {
            Some(_) => {
                assert(self.view().insert(id@) =~= self.view());
            },
            None => {
                let ghost before = self.ids@;
                let mut ids: Vec<String> = Vec::new();
                std::mem::swap(&mut ids, &mut self.ids);
                ids.push(id);
                assert(forall|a: int, b: int|
                    0 <= a < b < ids@.len() ==> ids@[a]@ != ids@[b]@) by {
                    assert forall|a: int, b: int| 0 <= a < b < ids@.len() implies ids@[a]@
                        != ids@[b]@ by {
                        if b == before.len() {
                            assert(ids@[a] == before[a]);
                        } else {
                            assert(ids@[a] == before[a] && ids@[b] == before[b]);
                        }
                    }
                }
                self.ids = ids;
                assert(self.view() =~= id_set(before).insert(id@)) by {
                    assert forall|k: Seq<char>| #[trigger]
                        self.view().contains(k) implies id_set(before).insert(id@).contains(k) by {
                        let i = choose|i: int| 0 <= i < self.ids@.len() && self.ids@[i]@ == k;
                        if i < before.len() {
                            assert(before[i]@ == k);
                        }
                    }
                    assert forall|k: Seq<char>| #[trigger]
                        id_set(before).insert(id@).contains(k) implies self.view().contains(k) by {
                        if k == id@ {
                            assert(self.ids@[before.len() as int]@ == k);
                        } else {
                            let i = choose|i: int| 0 <= i < before.len() && before[i]@ == k;
                            assert(self.ids@[i]@ == k);
                        }
                    }
                }
            },
        }
    }

    /// Forgets that download `id` was cancelled.
    pub fn remove(&mut self, id: &str)
        ensures
            final(self).view() == old(self).view().remove(id@),
    {
        proof {
            use_type_invariant(&*self);
        }
        match self.find(id) {
            Some(i) => {
                let ghost before = self.ids@;
                let mut ids: Vec<String> = Vec::new();
                std::mem::swap(&mut ids, &mut self.ids);
                ids.remove(i);
                assert(forall|a: int, b: int|
                    0 <= a < b < ids@.len() ==> ids@[a]@ != ids@[b]@) by {
                    assert forall|a: int, b: int| 0 <= a < b < ids@.len() implies ids@[a]@
                        != ids@[b]@ by {
                        let a0 = if a < i { a } else { a + 1 };
                        let b0 = if b < i { b } else { b + 1 };
                        assert(ids@[a] == before[a0] && ids@[b] == before[b0]);
                    }
                }
                self.ids = ids;
                assert(self.view() =~= id_set(before).remove(id@)) by {
                    assert forall|k: Seq<char>| #[trigger]
                        self.view().contains(k) implies id_set(before).remove(id@).contains(k) by {
                        let j = choose|j: int| 0 <= j < self.ids@.len() && self.ids@[j]@ == k;
                        if j < i {
                            assert(before[j]@ == k);
                        } else {
                            assert(before[j + 1]@ == k);
                        }
                    }
                    assert forall|k: Seq<char>| #[trigger]
                        id_set(before).remove(id@).contains(k) implies self.view().contains(k) by {
                        let j = choose|j: int| 0 <= j < before.len() && before[j]@ == k;
                        if j < i {
                            assert(self.ids@[j]@ == k);
                        } else {
                            assert(self.ids@[j - 1]@ == k);
                        }
                    }
                }
            },
            None => {
                assert(self.view().remove(id@) =~= self.view());
            },
        }
    }
}

/// Cancels download `id`: it is marked as cancelled and its process, if it
/// is running, is taken out of the table and handed back to be killed.
pub fn cancel<C>(cancelled: &mut CancelledIds, active: &mut ActiveDownloads<C>, id: &str) -> (r:
    Option<C>)
    ensures
        final(cancelled).view() == old(cancelled).view().insert(id@),
        (final(active).view(), r) == take_spec(old(active).view(), id@),
{
    cancelled.insert(crate::text::owned(id));
    active.remove(id)
}

/// What a process table gives back: taking out a download's process right
/// after recording it returns that process and leaves the table as taking
/// it out of the original table would; taking it out again finds nothing.
pub proof fn law_table_read_back<C>(table: ActiveDownloads<C>, id: Seq<char>, child: C)
    ensures
        ({
            let recorded = record_spec(table.view(), id, child).0;
            &&& take_spec(recorded, id) == (take_spec(table.view(), id).0, Some(child))
            &&& take_spec(take_spec(recorded, id).0, id).1 is None
        }),
{
    let m = table.view();
    assert(m.insert(id, child).remove(id) =~= m.remove(id));
}

/// A cancellation is remembered: after [`cancel`], the download is marked
/// cancelled and stays so whatever other download is forgotten, and its
/// process is no longer in the table, so taking it out again finds nothing.
pub proof fn law_cancel_sticks<C>(
    cancelled: CancelledIds,
    active: ActiveDownloads<C>,
    id: Seq<char>,
    other: Seq<char>,
)
    requires
        other != id,
    ensures
        cancelled.view().insert(id).contains(id),
        cancelled.view().insert(id).remove(other).contains(id),
        take_spec(take_spec(active.view(), id).0, id).1 is None,
{
}

} // verus!
