//! The bulk loader's decisions: which files a pattern names, in which order
//! they load, and the per-file bookkeeping of triples added.
use crate::error::Error;
use crate::registry::{load_bytes, triple_count};
use crate::engine::DataFormat;
use crate::text::chars_of;
use oxigraph::store::Store;
use vstd::prelude::*;
use vstd::seq_lib::*;

verus! {

/// The pattern holds a wildcard (`*`, `?` or `[`).
pub open spec fn has_wildcard(p: Seq<char>) -> bool {
    p.contains('*') || p.contains('?') || p.contains('[')
}

/// `k` is the last position of `c` in `s`.
pub open spec fn last_at(s: Seq<char>, c: char, k: int) -> bool {
    0 <= k < s.len() && s[k] == c && forall|j: int| k < j < s.len() ==> s[j] != c
}

/// The last component of a path.
pub open spec fn file_name_of(p: Seq<char>) -> Seq<char> {
    if exists|k: int| last_at(p, '/', k) {
        let k = choose|k: int| last_at(p, '/', k);
        p.subrange(k + 1, p.len() as int)
    } else {
        p
    }
}

/// The extension of a file name: what follows its last dot, where that dot
/// is not the name's first character.
pub open spec fn extension_of(name: Seq<char>) -> Option<Seq<char>> {
    if exists|k: int| last_at(name, '.', k) {
        let k = choose|k: int| last_at(name, '.', k);
        if k == 0 {
            None
        } else {
            Some(name.subrange(k + 1, name.len() as int))
        }
    } else {
        None
    }
}

/// The path names a graph-data file: its extension is `ttl` or `turtle`.
pub open spec fn is_graph_data_path(p: Seq<char>) -> bool {
    extension_of(file_name_of(p)) == Some("ttl"@) || extension_of(file_name_of(p)) == Some(
        "turtle"@,
    )
}

/// Character-wise lexicographic order on texts.
pub open spec fn lex_le(a: Seq<char>, b: Seq<char>) -> bool
    decreases a.len(),
{
    if a.len() == 0 {
        true
    } else if b.len() == 0 {
        false
    } else if (a[0] as u32) < (b[0] as u32) {
        true
    } else if (a[0] as u32) > (b[0] as u32) {
        false
    } else {
        lex_le(a.drop_first(), b.drop_first())
    }
}

/// In lexicographic order.
pub open spec fn sorted(s: Seq<Seq<char>>) -> bool {
    forall|i: int, j: int| 0 <= i < j < s.len() ==> lex_le(s[i], s[j])
}

/// The paths among `entries` (path, is a regular file) that are regular
/// graph-data files, in order.
pub open spec fn kept_paths(entries: Seq<(Seq<char>, bool)>) -> Seq<Seq<char>>
    decreases entries.len(),
{
    if entries.len() == 0 {
        Seq::empty()
    } else {
        let before = kept_paths(entries.drop_last());
        let e = entries.last();
        if e.1 && is_graph_data_path(e.0) {
            before.push(e.0)
        } else {
            before
        }
    }
}

pub proof fn lemma_lex_total(a: Seq<char>, b: Seq<char>)
    ensures
        lex_le(a, b) || lex_le(b, a),
    decreases a.len(),
{
    if a.len() > 0 && b.len() > 0 && (a[0] as u32) == (b[0] as u32) {
        lemma_lex_total(a.drop_first(), b.drop_first());
    }
}

pub proof fn lemma_lex_trans(a: Seq<char>, b: Seq<char>, c: Seq<char>)
    requires
        lex_le(a, b),
        lex_le(b, c),
    ensures
        lex_le(a, c),
    decreases a.len(),
{
    if a.len() > 0 && b.len() > 0 && c.len() > 0 && (a[0] as u32) == (b[0] as u32) && (b[0] as u32)
        == (c[0] as u32) {
        lemma_lex_trans(a.drop_first(), b.drop_first(), c.drop_first());
    }
}

/// Whether the pattern holds a wildcard.
pub fn has_glob_meta(pattern: &str) -> (r: bool)
    ensures
        r == has_wildcard(pattern@),
{
    let cs = chars_of(pattern);
    let n = cs.len();
    let mut i: usize = 0;
    while i < n
        invariant
            cs@ == pattern@,
            n == cs@.len(),
            i <= n,
            forall|k: int| 0 <= k < i ==> cs@[k] != '*' && cs@[k] != '?' && cs@[k] != '[',
        decreases n - i,
    {
        if cs[i] == '*' || cs[i] == '?' || cs[i] == '[' {
            assert(pattern@.contains(cs@[i as int]));
            return true;
        }
        i = i + 1;
    }
    false
}

/// The position of the last `c` in `cs[lo..]`, as an offset from `lo`.
fn last_index(cs: &Vec<char>, lo: usize, c: char) -> (r: Option<usize>)
    requires
        lo <= cs@.len(),
    ensures
        match r {
            Some(k) => last_at(cs@.subrange(lo as int, cs@.len() as int), c, k as int),
            None => !exists|k: int| last_at(cs@.subrange(lo as int, cs@.len() as int), c, k),
        },
{
    let ghost s = cs@.subrange(lo as int, cs@.len() as int);
    let mut i = cs.len();
    while i > lo
        invariant
            lo <= i <= cs@.len(),
            s == cs@.subrange(lo as int, cs@.len() as int),
            forall|j: int| i - lo <= j < s.len() ==> s[j] != c,
        decreases i,
    {
        if cs[i - 1] == c {
            assert(s[i - 1 - lo] == c);
            return Some(i - 1 - lo);
        }
        i = i - 1;
    }
    assert forall|k: int| !last_at(s, c, k) by {}
    None
}

proof fn lemma_unique_last(s: Seq<char>, c: char, k: int)
    requires
        last_at(s, c, k),
    ensures
        forall|j: int| last_at(s, c, j) ==> j == k,
{
    assert forall|j: int| last_at(s, c, j) implies j == k by {
        if j < k {
            assert(s[k] == c);
        } else if j > k {
            assert(s[j] == c);
        }
    }
}

/// Whether the path names a graph-data file by its extension (`ttl` or
/// `turtle`).
pub fn is_graph_data_file(path: &str) -> (r: bool)
    ensures
        r == is_graph_data_path(path@),
{
    proof {
        reveal_strlit("ttl");
        reveal_strlit("turtle");
    }
    let cs = chars_of(path);
    let n = cs.len();
    let start: usize = match last_index(&cs, 0, '/') {
        Some(k) => {
            assert(cs@.subrange(0, n as int) =~= path@);
            proof {
                lemma_unique_last(path@, '/', k as int);
            }
            k + 1
        },
        None => {
            assert(cs@.subrange(0, n as int) =~= path@);
            0
        },
    };
    let ghost name = cs@.subrange(start as int, n as int);
    assert(name == file_name_of(path@));
    let dot = match last_index(&cs, start, '.') {
        Some(k) => k,
        None => {
            return false;
        },
    };
    proof {
        lemma_unique_last(name, '.', dot as int);
    }
    if dot == 0 {
        return false;
    }
    let ghost ext = name.subrange(dot + 1, name.len() as int);
    assert(extension_of(name) == Some(ext));
    let from = start + dot + 1;
    assert(ext =~= cs@.subrange(from as int, n as int));
    let len = n - from;
    assert("ttl"@.len() == 3 && "turtle"@.len() == 6);
    if len == 3 {
        let r = cs[from] == 't' && cs[from + 1] == 't' && cs[from + 2] == 'l';
        assert(r ==> ext =~= "ttl"@);
        assert(ext == "ttl"@ ==> r) by {
            if ext == "ttl"@ {
                assert(ext[0] == 't' && ext[1] == 't' && ext[2] == 'l');
            }
        }
        assert(ext.len() != "turtle"@.len());
        r
    } else if len == 6 {
        let r = cs[from] == 't' && cs[from + 1] == 'u' && cs[from + 2] == 'r' && cs[from + 3] == 't'
            && cs[from + 4] == 'l' && cs[from + 5] == 'e';
        assert(r ==> ext =~= "turtle"@);
        assert(ext == "turtle"@ ==> r) by {
            if ext == "turtle"@ {
                assert(ext[0] == 't' && ext[1] == 'u' && ext[2] == 'r' && ext[3] == 't' && ext[4]
                    == 'l' && ext[5] == 'e');
            }
        }
        assert(ext.len() != "ttl"@.len());
        r
    } else {
        assert(ext.len() == len);
        assert(ext != "ttl"@ && ext != "turtle"@);
        false
    }
}

/// Whether `a` comes before `b`, or equals it, in lexicographic order.
pub fn text_le(a: &str, b: &str) -> (r: bool)
    ensures
        r == lex_le(a@, b@),
{
    let n = a.unicode_len();
    let m = b.unicode_len();
    let mut i: usize = 0;
    assert(a@.subrange(0, n as int) =~= a@);
    assert(b@.subrange(0, m as int) =~= b@);
    while i < n && i < m && (a.get_char(i) as u32) == (b.get_char(i) as u32)
        invariant
            n == a@.len(),
            m == b@.len(),
            i <= n,
            i <= m,
            lex_le(a@, b@) == lex_le(
                a@.subrange(i as int, n as int),
                b@.subrange(i as int, m as int),
            ),
        decreases n - i,
    {
        assert(a@.subrange(i as int, n as int).drop_first() =~= a@.subrange(i + 1, n as int));
        assert(b@.subrange(i as int, m as int).drop_first() =~= b@.subrange(i + 1, m as int));
        i = i + 1;
    }
    if i == n {
        true
    } else if i == m {
        false
    } else {
        (a.get_char(i) as u32) < (b.get_char(i) as u32)
    }
}

/// The paths a literal pattern (one without wildcards) names: itself, where
/// it exists; otherwise `FileNotFound`.
pub fn literal_path(pattern: &str, exists: bool) -> (r: Result<Vec<String>, Error>)
    ensures
        exists ==> r is Ok && r->Ok_0@.len() == 1 && r->Ok_0@[0]@ == pattern@,
        !exists ==> r is Err && r->Err_0 is FileNotFound && r->Err_0->FileNotFound_0@ == pattern@,
{
    if exists {
        let mut v: Vec<String> = Vec::new();
        v.push(String::from_str(pattern));
        Ok(v)
    } else {
        Err(Error::FileNotFound(String::from_str(pattern)))
    }
}

/// The files a wildcard pattern matched, given as (path, is a regular file):
/// the regular graph-data files among them, in lexicographic order.
/// Where there is none, `NoFilesMatched`.
pub fn matched_files(pattern: &str, entries: &Vec<(String, bool)>) -> (r: Result<Vec<String>, Error>)
    ensures
        match r {
            Ok(files) => {
                let v = files@.map_values(|s: String| s@);
                &&& sorted(v)
                &&& v.to_multiset() == kept_paths(entries@.map_values(|e: (String, bool)| (e.0@, e.1))).to_multiset()
                &&& v.len() > 0
            },
            Err(e) => e is NoFilesMatched && e->NoFilesMatched_0@ == pattern@ && kept_paths(
                entries@.map_values(|e: (String, bool)| (e.0@, e.1)),
            ).len() == 0,
        },
{
    let ghost es = entries@.map_values(|e: (String, bool)| (e.0@, e.1));
    let n = entries.len();
    let mut files: Vec<String> = Vec::new();
    let mut i: usize = 0;
    assert(es.subrange(0, 0) =~= Seq::<(Seq<char>, bool)>::empty());
    assert(files@.map_values(|s: String| s@) =~= Seq::<Seq<char>>::empty());
    while i < n
        invariant
            n == entries@.len(),
            es == entries@.map_values(|e: (String, bool)| (e.0@, e.1)),
            i <= n,
            sorted(files@.map_values(|s: String| s@)),
            files@.map_values(|s: String| s@).to_multiset() == kept_paths(es.subrange(0, i as int)).to_multiset(),
            files@.len() == kept_paths(es.subrange(0, i as int)).len(),
        decreases n - i,
    {
        let ghost sub = es.subrange(0, i + 1);
        assert(sub.drop_last() =~= es.subrange(0, i as int));
        let path = entries[i].0.as_str();
        if entries[i].1 && is_graph_data_file(path) {
            let ghost before = files@.map_values(|s: String| s@);
            let m = files.len();
            let mut p: usize = 0;
            while p < m && text_le(files[p].as_str(), path)
                invariant
                    m == files@.len(),
                    p <= m,
                    before == files@.map_values(|s: String| s@),
                    forall|k: int| 0 <= k < p ==> lex_le(before[k], path@),
                decreases m - p,
            {
                p = p + 1;
            }
            files.insert(p, String::from_str(path));
            let ghost after = files@.map_values(|s: String| s@);
            assert(after =~= before.insert(p as int, path@));
            proof {
                if p < m {
                    lemma_lex_total(before[p as int], path@);
                }
                assert forall|a: int, b: int| 0 <= a < b < after.len() implies lex_le(after[a], after[b]) by {
                    if b < p {
                        assert(after[a] == before[a] && after[b] == before[b]);
                    } else if b == p {
                        assert(after[a] == before[a]);
                    } else if a < p {
                        assert(after[a] == before[a] && after[b] == before[b - 1]);
                        lemma_lex_trans(before[a], path@, before[p as int]);
                        if b - 1 > p {
                            lemma_lex_trans(before[a], before[p as int], before[b - 1]);
                        }
                    } else if a == p {
                        assert(after[b] == before[b - 1]);
                        if b - 1 > p {
                            lemma_lex_trans(path@, before[p as int], before[b - 1]);
                        }
                    } else {
                        assert(after[a] == before[a - 1] && after[b] == before[b - 1]);
                    }
                }
                before.insert_ensures(p as int, path@);
                to_multiset_insert(before, p as int, path@);
                to_multiset_build(kept_paths(es.subrange(0, i as int)), path@);
            }
            assert(sub.last() == (path@, entries@[i as int].1));
        }
        i = i + 1;
    }
    assert(es.subrange(0, n as int) =~= es);
    if files.len() == 0 {
        Err(Error::NoFilesMatched(String::from_str(pattern)))
    } else {
        Ok(files)
    }
}

/// The sum of the per-file counts.
pub open spec fn counts_sum(files: Seq<(Seq<char>, nat)>) -> nat
    decreases files.len(),
{
    if files.len() == 0 {
        0
    } else {
        counts_sum(files.drop_last()) + files.last().1
    }
}

/// What a bulk load did: the store it loaded into, each file with the
/// triples it added, and their total.
pub struct LoadReport {
    store_path: String,
    files: Vec<(String, usize)>,
    total: usize,
}

/// A load report as plain values.
pub struct LoadReportView {
    pub store_path: Seq<char>,
    pub files: Seq<(Seq<char>, nat)>,
    pub total: nat,
}

impl View for LoadReport {
    type V = LoadReportView;

    closed spec fn view(&self) -> LoadReportView {
        LoadReportView {
            store_path: self.store_path@,
            files: self.files@.map_values(|f: (String, usize)| (f.0@, f.1 as nat)),
            total: self.total as nat,
        }
    }
}

impl LoadReport {
    /// The total is the sum of the per-file counts.
    pub open spec fn wf(&self) -> bool {
        self@.total == counts_sum(self@.files)
    }

    /// A report on the store at `store_path` with no file loaded yet.
    pub fn new(store_path: &str) -> (r: LoadReport)
        ensures
            r.wf(),
            r@.store_path == store_path@,
            r@.files.len() == 0,
            r@.total == 0,
    {
        let r = LoadReport { store_path: String::from_str(store_path), files: Vec::new(), total: 0 };
        assert(r@.files =~= Seq::<(Seq<char>, nat)>::empty());
        r
    }

    /// Records that the file at `path` took the store's triple count from
    /// `before` to `after`: the file added `after - before`. A count that went
    /// down, or a total that would not fit, is `Storage` and leaves the report
    /// unchanged.
    pub fn record(&mut self, path: &str, before: usize, after: usize) -> (r: Result<usize, Error>)
        requires
            old(self).wf(),
        ensures
            final(self).wf(),
            before <= after && old(self)@.total + (after - before) <= usize::MAX ==> {
                &&& r == Ok::<usize, Error>((after - before) as usize)
                &&& final(self)@.files == old(self)@.files.push((path@, (after - before) as nat))
                &&& final(self)@.total == old(self)@.total + (after - before)
                &&& final(self)@.store_path == old(self)@.store_path
            },
            !(before <= after && old(self)@.total + (after - before) <= usize::MAX) ==> r is Err
                && r->Err_0 is Storage && final(self)@ == old(self)@,
    {
        if after < before {
            return Err(Error::Storage(crate::dispatch::with_context("Store shrank while loading: ", String::from_str(path))));
        }
        let added = after - before;
        if added > usize::MAX - self.total {
            return Err(Error::Storage(crate::dispatch::with_context("Triple count overflow while loading: ", String::from_str(path))));
        }
        let ghost old_files = self@.files;
        self.files.push((String::from_str(path), added));
        self.total = self.total + added;
        assert(self@.files =~= old_files.push((path@, added as nat)));
        assert(self@.files.drop_last() =~= old_files);
        Ok(added)
    }

    /// Loads one file's content into `store` and records how many triples that
    /// added: the store's count after, less its count before (see `record`).
    /// A parse failure (`ParseFailure`) or an engine failure (`Storage`) leaves
    /// the report unchanged; the caller stops the whole load there.
    pub fn load_file(
        &mut self,
        store: &Store,
        path: &str,
        data: &[u8],
        base_iri: Option<&str>,
    ) -> (r: Result<usize, Error>)
        requires
            old(self).wf(),
        ensures
            final(self).wf(),
            match r {
                Ok(added) => {
                    &&& final(self)@.files == old(self)@.files.push((path@, added as nat))
                    &&& final(self)@.total == old(self)@.total + added
                    &&& final(self)@.store_path == old(self)@.store_path
                },
                Err(e) => final(self)@ == old(self)@ && (e is ParseFailure || e is Storage),
            },
    {
        let before = triple_count(store)?;
        load_bytes(store, DataFormat::Turtle, data, base_iri)?;
        let after = triple_count(store)?;
        self.record(path, before, after)
    }

    /// The path of the store loaded into.
    pub fn store_path(&self) -> (r: String)
        ensures
            r@ == self@.store_path,
    {
        self.store_path.clone()
    }

    /// The files loaded, in order, with the triples each added.
    pub fn files(&self) -> (r: Vec<(String, usize)>)
        ensures
            r@.len() == self@.files.len(),
            forall|i: int|
                0 <= i < r@.len() ==> (#[trigger] r@[i]).0@ == self@.files[i].0 && r@[i].1 as nat
                    == self@.files[i].1,
    {
        let n = self.files.len();
        let mut r: Vec<(String, usize)> = Vec::new();
        let mut i: usize = 0;
        while i < n
            invariant
                n == self.files@.len(),
                i <= n,
                r@.len() == i,
                forall|k: int|
                    0 <= k < i ==> (#[trigger] r@[k]).0@ == self@.files[k].0 && r@[k].1 as nat
                        == self@.files[k].1,
            decreases n - i,
        {
            r.push((self.files[i].0.clone(), self.files[i].1));
            i = i + 1;
        }
        r
    }

    /// The triples added by all files.
    pub fn total(&self) -> (r: usize)
        ensures
            r as nat == self@.total,
    {
        self.total
    }
}

} // verus!
