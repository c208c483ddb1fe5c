//! Content hashes and change detection for incremental scans.
use vstd::prelude::*;
use crate::graph::{FileHash, FileHashView, hash_views};
use crate::text::{chars_of, eq_chars};

verus! {

broadcast use vstd::seq_lib::group_seq_properties;

/// SHA-256 of file contents.
pub fn hash_bytes(data: &[u8]) -> (r: [u8; 32])
    ensures
        r@ == crate::symbol::sha256_of(data@),
{
    crate::symbol::sha256(data)
}

/// The hash recorded for `path` (the first record for it), if any.
pub open spec fn recorded_hash(entries: Seq<FileHashView>, path: Seq<char>) -> Option<Seq<u8>>
    decreases entries.len(),
{
    if entries.len() == 0 {
        None
    } else if entries[0].path == path {
        Some(entries[0].hash)
    } else {
        recorded_hash(entries.drop_first(), path)
    }
}

pub open spec fn is_added(prev: Seq<FileHashView>) -> spec_fn(FileHashView) -> bool {
    |e: FileHashView| recorded_hash(prev, e.path) is None
}

pub open spec fn is_modified(prev: Seq<FileHashView>) -> spec_fn(FileHashView) -> bool {
    |e: FileHashView| recorded_hash(prev, e.path) matches Some(h) && h != e.hash
}

pub open spec fn is_removed(current: Seq<FileHashView>) -> spec_fn(FileHashView) -> bool {
    |e: FileHashView| recorded_hash(current, e.path) is None
}

pub open spec fn paths_of(entries: Seq<FileHashView>) -> Seq<Seq<char>> {
    entries.map_values(|e: FileHashView| e.path)
}

/// No path is recorded twice.
pub open spec fn paths_distinct(entries: Seq<FileHashView>) -> bool {
    forall|i: int, j: int|
        0 <= i < entries.len() && 0 <= j < entries.len() && i != j ==> #[trigger] entries[i].path
            != #[trigger] entries[j].path
}

/// Tracks file hashes for incremental parsing.
pub struct IncrementalState {
    pub file_hashes: Vec<FileHash>,
}

/// Files added, modified and removed since the recorded state.
pub struct FileChanges {
    pub added: Vec<String>,
    pub modified: Vec<String>,
    pub removed: Vec<String>,
}

pub open spec fn string_views(v: Seq<String>) -> Seq<Seq<char>> {
    v.map_values(|s: String| s@)
}

/// Whether two digests are equal.
pub fn same_digest(a: &[u8; 32], b: &[u8; 32]) -> (r: bool)
    ensures
        r == (a@ == b@),
{
    let mut i: usize = 0;
    while i < 32
        invariant
            i <= 32,
            a@.len() == 32,
            b@.len() == 32,
            forall|j: int| 0 <= j < i ==> a@[j] == b@[j],
        decreases 32 - i,
    {
        if a[i] != b[i] {
            return false;
        }
        i = i + 1;
    }
    proof {
        assert(a@ =~= b@);
    }
    true
}

fn lookup_hash(entries: &Vec<FileHash>, path: &[char]) -> (r: Option<[u8; 32]>)
    ensures
        r matches Some(h) ==> recorded_hash(hash_views(entries@), path@) == Some(h@),
        r is None ==> recorded_hash(hash_views(entries@), path@) is None,
{
    let ghost hv = hash_views(entries@);
    let mut i: usize = 0;
    proof {
        assert(hv.subrange(0, hv.len() as int) =~= hv);
    }
    while i < entries.len()
        invariant
            i <= entries@.len(),
            hv == hash_views(entries@),
            recorded_hash(hv, path@) == recorded_hash(hv.subrange(i as int, hv.len() as int), path@),
        decreases entries@.len() - i,
    {
        let ghost rest = hv.subrange(i as int, hv.len() as int);
        proof {
            assert(rest.drop_first() =~= hv.subrange(i as int + 1, hv.len() as int));
            assert(rest[0] == entries@[i as int]@);
        }
        let pc = chars_of(entries[i].path.as_str());
        if eq_chars(&pc, path) {
            return Some(entries[i].hash);
        }
        i = i + 1;
    }
    None
}

impl IncrementalState {
    /// No path is recorded twice, as in a map from paths to hashes.
    pub open spec fn wf(&self) -> bool {
        paths_distinct(hash_views(self.file_hashes@))
    }

    pub fn new() -> (r: IncrementalState)
        ensures
            r.file_hashes@.len() == 0,
            r.wf(),
    {
        IncrementalState { file_hashes: Vec::new() }
    }

    pub fn from_hashes(hashes: Vec<FileHash>) -> (r: IncrementalState)
        requires
            paths_distinct(hash_views(hashes@)),
        ensures
            r.file_hashes@ == hashes@,
            r.wf(),
    {
        IncrementalState { file_hashes: hashes }
    }

    /// Compares current file hashes against the recorded state: a current file
    /// with no record is added, one whose record differs is modified, and a
    /// recorded file absent from `current` is removed. No list names a path twice.
    pub fn detect_changes(&self, current: &Vec<FileHash>) -> (r: FileChanges)
        requires
            self.wf(),
            paths_distinct(hash_views(current@)),
        ensures
            string_views(r.added@).no_duplicates(),
            string_views(r.modified@).no_duplicates(),
            string_views(r.removed@).no_duplicates(),
            string_views(r.added@) == paths_of(
                hash_views(current@).filter(is_added(hash_views(self.file_hashes@))),
            ),
            string_views(r.modified@) == paths_of(
                hash_views(current@).filter(is_modified(hash_views(self.file_hashes@))),
            ),
            string_views(r.removed@) == paths_of(
                hash_views(self.file_hashes@).filter(is_removed(hash_views(current@))),
            ),
            changes_are_set_differences(
                hash_views(self.file_hashes@),
                hash_views(current@),
                string_views(r.added@),
                string_views(r.modified@),
                string_views(r.removed@),
            ),
            hash_views(current@) == hash_views(self.file_hashes@) ==> r.added@.len() == 0
                && r.modified@.len() == 0 && r.removed@.len() == 0,
    {
        let ghost prev = hash_views(self.file_hashes@);
        let ghost cur = hash_views(current@);
        let mut added: Vec<String> = Vec::new();
        let mut modified: Vec<String> = Vec::new();
        let mut i: usize = 0;
        while i < current.len()
            invariant
                i <= current@.len(),
                prev == hash_views(self.file_hashes@),
                cur == hash_views(current@),
                string_views(added@) == paths_of(cur.take(i as int).filter(is_added(prev))),
                string_views(modified@) == paths_of(cur.take(i as int).filter(is_modified(prev))),
            decreases current@.len() - i,
        {
            let ghost e = cur[i as int];
            proof {
                assert(cur.take(i as int + 1) =~= cur.take(i as int).push(e));
                cur.take(i as int).lemma_filter_push(e, is_added(prev));
                cur.take(i as int).lemma_filter_push(e, is_modified(prev));
            }
            let pc = chars_of(current[i].path.as_str());
            match lookup_hash(&self.file_hashes, &pc) {
                None => {
                    let ghost a0 = string_views(added@);
                    added.push(current[i].path.clone());
                    proof {
                        assert(string_views(added@) =~= a0.push(e.path));
                        assert(paths_of(cur.take(i as int).filter(is_added(prev)).push(e)) =~= paths_of(
                            cur.take(i as int).filter(is_added(prev)),
                        ).push(e.path));
                    }
                },
                Some(h) => {
                    if !same_digest(&h, &current[i].hash) {
                        let ghost m0 = string_views(modified@);
                        modified.push(current[i].path.clone());
                        proof {
                            assert(string_views(modified@) =~= m0.push(e.path));
                            assert(paths_of(cur.take(i as int).filter(is_modified(prev)).push(e))
                                =~= paths_of(cur.take(i as int).filter(is_modified(prev))).push(
                                e.path,
                            ));
                        }
                    }
                },
            }
            i = i + 1;
        }
        proof {
            assert(cur.take(current@.len() as int) =~= cur);
        }
        let mut removed: Vec<String> = Vec::new();
        let mut k: usize = 0;
        while k < self.file_hashes.len()
            invariant
                k <= self.file_hashes@.len(),
                prev == hash_views(self.file_hashes@),
                cur == hash_views(current@),
                string_views(removed@) == paths_of(prev.take(k as int).filter(is_removed(cur))),
            decreases self.file_hashes@.len() - k,
        {
            let ghost e = prev[k as int];
            proof {
                assert(prev.take(k as int + 1) =~= prev.take(k as int).push(e));
                prev.take(k as int).lemma_filter_push(e, is_removed(cur));
            }
            let pc = chars_of(self.file_hashes[k].path.as_str());
            if lookup_hash(current, &pc).is_none() {
                let ghost r0 = string_views(removed@);
                removed.push(self.file_hashes[k].path.clone());
                proof {
                    assert(string_views(removed@) =~= r0.push(e.path));
                    assert(paths_of(prev.take(k as int).filter(is_removed(cur)).push(e)) =~= paths_of(
                        prev.take(k as int).filter(is_removed(cur)),
                    ).push(e.path));
                }
            }
            k = k + 1;
        }
        proof {
            assert(prev.take(self.file_hashes@.len() as int) =~= prev);
            lemma_filtered_paths_unique(cur, is_added(prev));
            lemma_filtered_paths_unique(cur, is_modified(prev));
            lemma_filtered_paths_unique(prev, is_removed(cur));
            lemma_changes_are_set_differences(prev, cur);
            if cur == prev {
                lemma_no_changes_against_itself(prev);
            }
        }
        FileChanges { added, modified, removed }
    }
}

/// With distinct paths, the record of the path at position `i` is that entry's hash.
pub proof fn lemma_recorded_hash_at(entries: Seq<FileHashView>, i: int)
    requires
        paths_distinct(entries),
        0 <= i < entries.len(),
    ensures
        recorded_hash(entries, entries[i].path) == Some(entries[i].hash),
    decreases entries.len(),
{
    if i > 0 {
        let d = entries.drop_first();
        assert(paths_distinct(d)) by {
            assert forall|a: int, b: int| 0 <= a < d.len() && 0 <= b < d.len() && a != b implies #[trigger] d[a].path != #[trigger] d[b].path by {
                assert(entries[a + 1].path != entries[b + 1].path);
            }
        }
        assert(entries[0].path != entries[i].path);
        lemma_recorded_hash_at(d, i - 1);
    }
}

/// Comparing a state against its own hashes finds no change.
pub proof fn lemma_no_changes_against_itself(entries: Seq<FileHashView>)
    requires
        paths_distinct(entries),
    ensures
        entries.filter(is_added(entries)).len() == 0,
        entries.filter(is_modified(entries)).len() == 0,
        entries.filter(is_removed(entries)).len() == 0,
{
    assert forall|i: int| 0 <= i < entries.len() implies #[trigger] recorded_hash(entries, entries[i].path) == Some(entries[i].hash) by {
        lemma_recorded_hash_at(entries, i);
    }
    lemma_filter_none(entries, is_added(entries));
    lemma_filter_none(entries, is_modified(entries));
    lemma_filter_none(entries, is_removed(entries));
}

proof fn lemma_filter_none(s: Seq<FileHashView>, p: spec_fn(FileHashView) -> bool)
    requires
        forall|i: int| 0 <= i < s.len() ==> !p(#[trigger] s[i]),
    ensures
        s.filter(p).len() == 0,
    decreases s.len(),
{
    reveal(Seq::filter);
    if s.len() > 0 {
        assert forall|i: int| 0 <= i < s.drop_last().len() implies !p(#[trigger] s.drop_last()[i]) by {
            assert(!p(s[i]));
        }
        lemma_filter_none(s.drop_last(), p);
        assert(!p(s[s.len() - 1]));
    }
}

/// Added and modified files are distinct current files: together they never
/// outnumber the current files.
pub proof fn lemma_changes_bounded(prev: Seq<FileHashView>, cur: Seq<FileHashView>)
    ensures
        cur.filter(is_added(prev)).len() + cur.filter(is_modified(prev)).len() <= cur.len(),
    decreases cur.len(),
{
    reveal(Seq::filter);
    if cur.len() > 0 {
        lemma_changes_bounded(prev, cur.drop_last());
    }
}

/// Keeping some of the records keeps their paths distinct.
pub proof fn lemma_filter_paths_distinct(s: Seq<FileHashView>, p: spec_fn(FileHashView) -> bool)
    requires
        paths_distinct(s),
    ensures
        paths_distinct(s.filter(p)),
    decreases s.len(),
{
    reveal(Seq::filter);
    if s.len() > 0 {
        let d = s.drop_last();
        assert(paths_distinct(d)) by {
            assert forall|a: int, b: int| 0 <= a < d.len() && 0 <= b < d.len() && a != b implies #[trigger] d[a].path != #[trigger] d[b].path by {
                assert(s[a].path != s[b].path);
            }
        }
        lemma_filter_paths_distinct(d, p);
        let f = d.filter(p);
        if p(s.last()) {
            let g = f.push(s.last());
            assert(s.filter(p) == g);
            assert forall|a: int, b: int| 0 <= a < g.len() && 0 <= b < g.len() && a != b implies #[trigger] g[a].path != #[trigger] g[b].path by {
                if a < f.len() && b < f.len() {
                } else if a == f.len() {
                    assert(f.contains(f[b]));
                    d.lemma_filter_contains_rev(p, f[b]);
                    let k = choose|k: int| 0 <= k < d.len() && d[k] == f[b];
                    assert(s[k].path != s[s.len() - 1].path);
                } else {
                    assert(f.contains(f[a]));
                    d.lemma_filter_contains_rev(p, f[a]);
                    let k = choose|k: int| 0 <= k < d.len() && d[k] == f[a];
                    assert(s[k].path != s[s.len() - 1].path);
                }
            }
        }
    }
}

/// The paths of records with distinct paths are each named once.
pub proof fn lemma_paths_unique(s: Seq<FileHashView>)
    requires
        paths_distinct(s),
    ensures
        paths_of(s).no_duplicates(),
{
    assert forall|a: int, b: int| 0 <= a < paths_of(s).len() && 0 <= b < paths_of(s).len() && a != b implies paths_of(s)[a] != paths_of(s)[b] by {
        assert(s[a].path != s[b].path);
    }
}

proof fn lemma_filtered_paths_unique(s: Seq<FileHashView>, p: spec_fn(FileHashView) -> bool)
    requires
        paths_distinct(s),
    ensures
        paths_of(s.filter(p)).no_duplicates(),
{
    lemma_filter_paths_distinct(s, p);
    lemma_paths_unique(s.filter(p));
}


/// `added`, `modified` and `removed` are, as sets of paths, the current paths
/// with no record, the current paths recorded with another hash, and the
/// recorded paths that are no longer current.
pub open spec fn changes_are_set_differences(
    prev: Seq<FileHashView>,
    cur: Seq<FileHashView>,
    added: Seq<Seq<char>>,
    modified: Seq<Seq<char>>,
    removed: Seq<Seq<char>>,
) -> bool {
    &&& forall|p: Seq<char>| #[trigger] added.contains(p) <==> paths_of(cur).contains(p)
        && !paths_of(prev).contains(p)
    &&& forall|p: Seq<char>| #[trigger] modified.contains(p) <==> exists|i: int, j: int|
        0 <= i < cur.len() && 0 <= j < prev.len() && #[trigger] cur[i].path == p && #[trigger] prev[j].path == p
            && cur[i].hash != prev[j].hash
    &&& forall|p: Seq<char>| #[trigger] removed.contains(p) <==> paths_of(prev).contains(p)
        && !paths_of(cur).contains(p)
}

/// No record names `p` exactly when `p` is not among the recorded paths.
proof fn lemma_recorded_none_iff(entries: Seq<FileHashView>, p: Seq<char>)
    ensures
        recorded_hash(entries, p) is None <==> !paths_of(entries).contains(p),
    decreases entries.len(),
{
    if entries.len() > 0 {
        let d = entries.drop_first();
        lemma_recorded_none_iff(d, p);
        if paths_of(entries).contains(p) && entries[0].path != p {
            let k = choose|k: int| 0 <= k < paths_of(entries).len() && paths_of(entries)[k] == p;
            assert(paths_of(d)[k - 1] == p);
        }
        if paths_of(d).contains(p) {
            let k = choose|k: int| 0 <= k < paths_of(d).len() && paths_of(d)[k] == p;
            assert(paths_of(entries)[k + 1] == p);
        }
        if entries[0].path == p {
            assert(paths_of(entries)[0] == p);
        }
    }
}

/// A path is among the paths of the records that `f` keeps exactly when some
/// record with that path is kept.
proof fn lemma_filtered_path(s: Seq<FileHashView>, f: spec_fn(FileHashView) -> bool, p: Seq<char>)
    ensures
        paths_of(s.filter(f)).contains(p) <==> exists|i: int| 0 <= i < s.len() && #[trigger] s[i].path == p && f(s[i]),
{
    let g = s.filter(f);
    if paths_of(g).contains(p) {
        let k = choose|k: int| 0 <= k < paths_of(g).len() && paths_of(g)[k] == p;
        assert(g.contains(g[k]));
        s.lemma_filter_contains_rev(f, g[k]);
        s.lemma_filter_pred(f, k);
        let i = choose|i: int| 0 <= i < s.len() && s[i] == g[k];
        assert(s[i].path == p && f(s[i]));
    }
    if exists|i: int| 0 <= i < s.len() && #[trigger] s[i].path == p && f(s[i]) {
        let i = choose|i: int| 0 <= i < s.len() && #[trigger] s[i].path == p && f(s[i]);
        s.lemma_filter_contains(f, i);
        let k = choose|k: int| 0 <= k < g.len() && g[k] == s[i];
        assert(paths_of(g)[k] == p);
    }
}

/// The changes that `detect_changes` reports are set differences of the
/// recorded and the current paths: added files are current but not recorded,
/// removed files recorded but not current, and modified files recorded with
/// another hash than their current one.
pub proof fn lemma_changes_are_set_differences(prev: Seq<FileHashView>, cur: Seq<FileHashView>)
    requires
        paths_distinct(prev),
    ensures
        changes_are_set_differences(
            prev,
            cur,
            paths_of(cur.filter(is_added(prev))),
            paths_of(cur.filter(is_modified(prev))),
            paths_of(prev.filter(is_removed(cur))),
        ),
{
    assert forall|p: Seq<char>| #[trigger] paths_of(cur.filter(is_added(prev))).contains(p) <==> paths_of(cur).contains(p)
        && !paths_of(prev).contains(p) by {
        lemma_filtered_path(cur, is_added(prev), p);
        lemma_recorded_none_iff(prev, p);
        if paths_of(cur).contains(p) {
            let k = choose|k: int| 0 <= k < paths_of(cur).len() && paths_of(cur)[k] == p;
            assert(cur[k].path == p);
            if !paths_of(prev).contains(p) {
                assert(is_added(prev)(cur[k]));
            }
        }
        if paths_of(cur.filter(is_added(prev))).contains(p) {
            let i = choose|i: int| 0 <= i < cur.len() && #[trigger] cur[i].path == p && is_added(prev)(cur[i]);
            assert(paths_of(cur)[i] == p);
        }
    }
    assert forall|p: Seq<char>| #[trigger] paths_of(prev.filter(is_removed(cur))).contains(p) <==> paths_of(prev).contains(p)
        && !paths_of(cur).contains(p) by {
        lemma_filtered_path(prev, is_removed(cur), p);
        lemma_recorded_none_iff(cur, p);
        if paths_of(prev).contains(p) {
            let k = choose|k: int| 0 <= k < paths_of(prev).len() && paths_of(prev)[k] == p;
            assert(prev[k].path == p);
            if !paths_of(cur).contains(p) {
                assert(is_removed(cur)(prev[k]));
            }
        }
        if paths_of(prev.filter(is_removed(cur))).contains(p) {
            let i = choose|i: int| 0 <= i < prev.len() && #[trigger] prev[i].path == p && is_removed(cur)(prev[i]);
            assert(paths_of(prev)[i] == p);
        }
    }
    assert forall|p: Seq<char>| #[trigger] paths_of(cur.filter(is_modified(prev))).contains(p) <==> exists|i: int, j: int|
        0 <= i < cur.len() && 0 <= j < prev.len() && #[trigger] cur[i].path == p && #[trigger] prev[j].path == p
            && cur[i].hash != prev[j].hash by {
        lemma_filtered_path(cur, is_modified(prev), p);
        lemma_recorded_none_iff(prev, p);
        if paths_of(cur.filter(is_modified(prev))).contains(p) {
            let i = choose|i: int| 0 <= i < cur.len() && #[trigger] cur[i].path == p && is_modified(prev)(cur[i]);
            assert(recorded_hash(prev, p) is Some);
            let k = choose|k: int| 0 <= k < paths_of(prev).len() && paths_of(prev)[k] == p;
            lemma_recorded_hash_at(prev, k);
            assert(prev[k].path == p && cur[i].hash != prev[k].hash);
        }
        if exists|i: int, j: int|
            0 <= i < cur.len() && 0 <= j < prev.len() && #[trigger] cur[i].path == p && #[trigger] prev[j].path == p
                && cur[i].hash != prev[j].hash {
            let (i, j) = choose|i: int, j: int|
                0 <= i < cur.len() && 0 <= j < prev.len() && #[trigger] cur[i].path == p && #[trigger] prev[j].path == p
                    && cur[i].hash != prev[j].hash;
            lemma_recorded_hash_at(prev, j);
            assert(is_modified(prev)(cur[i]));
        }
    }
}

} // verus!
