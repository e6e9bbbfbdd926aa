//! The prefix table: short names for namespace IRIs, seeded with common
//! vocabularies and extended by the `PREFIX` declarations of a query.
use crate::text::{chars_of, text_eq, trim, trimmed_bounds};
use vstd::prelude::*;

verus! {

/// A table entry as plain values: (short name, namespace IRI).
pub type Entry = (Seq<char>, Seq<char>);

/// No short name occurs twice.
pub open spec fn names_unique(t: Seq<Entry>) -> bool {
    forall|i: int, j: int| 0 <= i < j < t.len() ==> t[i].0 != t[j].0
}

/// Binding `name` to `ns`: a later binding of a name replaces the earlier one in
/// place, a new name goes to the end.
pub open spec fn table_insert(t: Seq<Entry>, name: Seq<char>, ns: Seq<char>) -> Seq<Entry> {
    if exists|i: int| 0 <= i < t.len() && t[i].0 == name {
        let i = choose|i: int| 0 <= i < t.len() && t[i].0 == name;
        t.update(i, (name, ns))
    } else {
        t.push((name, ns))
    }
}

/// The eight vocabularies every table starts with.
pub open spec fn default_table() -> Seq<Entry> {
    seq![
        ("rdf"@, "http://www.w3.org/1999/02/22-rdf-syntax-ns#"@),
        ("rdfs"@, "http://www.w3.org/2000/01/rdf-schema#"@),
        ("owl"@, "http://www.w3.org/2002/07/owl#"@),
        ("xsd"@, "http://www.w3.org/2001/XMLSchema#"@),
        ("foaf"@, "http://xmlns.com/foaf/0.1/"@),
        ("dc"@, "http://purl.org/dc/elements/1.1/"@),
        ("dcterms"@, "http://purl.org/dc/terms/"@),
        ("skos"@, "http://www.w3.org/2004/02/skos/core#"@),
    ]
}

/// The lines of a text, split at each line feed (a text without one is one line).
pub open spec fn lines_of(s: Seq<char>) -> Seq<Seq<char>>
    decreases s.len(),
{
    if s.len() == 0 {
        seq![Seq::empty()]
    } else {
        let init = lines_of(s.drop_last());
        if s.last() == '\n' {
            init.push(Seq::empty())
        } else {
            init.update(init.len() - 1, init.last().push(s.last()))
        }
    }
}

/// The line starts with the keyword `PREFIX`, in any mix of ASCII case.
pub open spec fn starts_with_keyword(t: Seq<char>) -> bool {
    &&& t.len() >= 6
    &&& (t[0] == 'P' || t[0] == 'p')
    &&& (t[1] == 'R' || t[1] == 'r')
    &&& (t[2] == 'E' || t[2] == 'e')
    &&& (t[3] == 'F' || t[3] == 'f')
    &&& (t[4] == 'I' || t[4] == 'i')
    &&& (t[5] == 'X' || t[5] == 'x')
}

/// `k` is the first position of a colon in `s`.
pub open spec fn first_colon_at(s: Seq<char>, k: int) -> bool {
    0 <= k < s.len() && s[k] == ':' && forall|j: int| 0 <= j < k ==> s[j] != ':'
}

/// The declaration a line makes, if any: after the keyword, the name up to the
/// first colon and, after it, a namespace in angle brackets; all trimmed.
pub open spec fn declaration_of(line: Seq<char>) -> Option<Entry> {
    let t = trim(line);
    if !starts_with_keyword(t) {
        None
    } else {
        let rest = trim(t.subrange(6, t.len() as int));
        if exists|k: int| first_colon_at(rest, k) {
            let k = choose|k: int| first_colon_at(rest, k);
            let name = trim(rest.subrange(0, k));
            let rem = trim(rest.subrange(k + 1, rest.len() as int));
            if rem.len() >= 2 && rem[0] == '<' && rem.last() == '>' {
                Some((name, rem.subrange(1, rem.len() - 1)))
            } else {
                None
            }
        } else {
            None
        }
    }
}

/// The table after the declarations of `lines`, taken in order.
pub open spec fn apply_lines(t: Seq<Entry>, lines: Seq<Seq<char>>) -> Seq<Entry>
    decreases lines.len(),
{
    if lines.len() == 0 {
        t
    } else {
        let before = apply_lines(t, lines.drop_last());
        match declaration_of(lines.last()) {
            Some(d) => table_insert(before, d.0, d.1),
            None => before,
        }
    }
}

/// The prefix table of a query text.
pub open spec fn prefix_table_of(query: Seq<char>) -> Seq<Entry> {
    apply_lines(default_table(), lines_of(query))
}

/// A table from short names to namespace IRIs.
pub struct PrefixTable {
    entries: Vec<(String, String)>,
}

impl View for PrefixTable {
    type V = Seq<Entry>;

    closed spec fn view(&self) -> Seq<Entry> {
        self.entries@.map_values(|e: (String, String)| (e.0@, e.1@))
    }
}

impl PrefixTable {
    /// A table with no entries.
    pub fn empty() -> (r: PrefixTable)
        ensures
            r@ == Seq::<Entry>::empty(),
    {
        let r = PrefixTable { entries: Vec::new() };
        assert(r@ =~= Seq::<Entry>::empty());
        r
    }

    /// The table of common vocabularies.
    pub fn defaults() -> (r: PrefixTable)
        ensures
            r@ == default_table(),
            names_unique(r@),
    {
        proof {
            reveal_strlit("rdf");
            reveal_strlit("rdfs");
            reveal_strlit("owl");
            reveal_strlit("xsd");
            reveal_strlit("foaf");
            reveal_strlit("dc");
            reveal_strlit("dcterms");
            reveal_strlit("skos");
        }
        let mut r = PrefixTable::empty();
        r.push_new("rdf", "http://www.w3.org/1999/02/22-rdf-syntax-ns#");
        r.push_new("rdfs", "http://www.w3.org/2000/01/rdf-schema#");
        r.push_new("owl", "http://www.w3.org/2002/07/owl#");
        r.push_new("xsd", "http://www.w3.org/2001/XMLSchema#");
        r.push_new("foaf", "http://xmlns.com/foaf/0.1/");
        r.push_new("dc", "http://purl.org/dc/elements/1.1/");
        r.push_new("dcterms", "http://purl.org/dc/terms/");
        r.push_new("skos", "http://www.w3.org/2004/02/skos/core#");
        assert(r@ =~= default_table());
        proof {
            lemma_default_names_unique();
        }
        r
    }

    fn push_new(&mut self, name: &str, ns: &str)
        ensures
            final(self)@ == old(self)@.push((name@, ns@)),
    {
        self.entries.push((String::from_str(name), String::from_str(ns)));
        assert(final(self)@ =~= old(self)@.push((name@, ns@)));
    }

    /// Number of entries.
    pub fn len(&self) -> (r: usize)
        ensures
            r == self@.len(),
    {
        self.entries.len()
    }

    /// The short name of entry `i`.
    pub fn name_at(&self, i: usize) -> (r: &str)
        requires
            i < self@.len(),
        ensures
            r@ == self@[i as int].0,
    {
        self.entries[i].0.as_str()
    }

    /// The namespace of entry `i`.
    pub fn namespace_at(&self, i: usize) -> (r: &str)
        requires
            i < self@.len(),
        ensures
            r@ == self@[i as int].1,
    {
        self.entries[i].1.as_str()
    }

    /// Binds `name` to `ns`, replacing an earlier binding of `name`.
    pub fn insert(&mut self, name: &str, ns: &str)
        requires
            names_unique(old(self)@),
        ensures
            final(self)@ == table_insert(old(self)@, name@, ns@),
            names_unique(final(self)@),
    {
        let n = self.entries.len();
        let mut i: usize = 0;
        while i < n
            invariant
                n == self@.len(),
                self@ == old(self)@,
                names_unique(self@),
                i <= n,
                forall|k: int| 0 <= k < i ==> self@[k].0 != name@,
            decreases n - i,
        {
            if text_eq(self.entries[i].0.as_str(), name) {
                let ghost t = self@;
                assert(t[i as int].0 == name@);
                let ghost c = choose|j: int| 0 <= j < t.len() && t[j].0 == name@;
                assert(c == i) by {
                    if c != i {
                        assert(t[c].0 == t[i as int].0);
                    }
                }
                self.entries.set(i, (String::from_str(name), String::from_str(ns)));
                assert(self@ =~= t.update(i as int, (name@, ns@)));
                assert forall|a: int, b: int| 0 <= a < b < self@.len() implies self@[a].0
                    != self@[b].0 by {
                    assert(self@[a].0 == t[a].0);
                    assert(self@[b].0 == t[b].0);
                }
                return;
            }
            i = i + 1;
        }
        self.push_new(name, ns);
        assert forall|a: int, b: int| 0 <= a < b < self@.len() implies self@[a].0 != self@[b].0 by {
            if b == n {
                assert(old(self)@[a].0 != name@);
            } else {
                assert(old(self)@[a].0 != old(self)@[b].0);
            }
        }
    }
}

/// The prefix table of a query: the common vocabularies, then each line's
/// `PREFIX name: <namespace>` declaration in order, a later one for a name
/// overriding the earlier. Lines that do not match that shape are skipped.
pub fn extract_prefixes(query: &str) -> (r: PrefixTable)
    ensures
        r@ == prefix_table_of(query@),
        names_unique(r@),
{
    let cs = chars_of(query);
    let n = cs.len();
    let mut table = PrefixTable::defaults();
    let mut start: usize = 0;
    let mut i: usize = 0;
    while i < n
        invariant
            cs@ == query@,
            n == cs@.len(),
            start <= i <= n,
            names_unique(table@),
            lines_of(cs@.subrange(0, i as int)).len() >= 1,
            lines_of(cs@.subrange(0, i as int)).last() == cs@.subrange(start as int, i as int),
            table@ == apply_lines(default_table(), lines_of(cs@.subrange(0, i as int)).drop_last()),
        decreases n - i,
    {
        let ghost before = lines_of(cs@.subrange(0, i as int));
        proof {
            lemma_lines_nonempty(cs@.subrange(0, i as int));
        }
        assert(cs@.subrange(0, i + 1).drop_last() =~= cs@.subrange(0, i as int));
        assert(cs@.subrange(0, i + 1).last() == cs@[i as int]);
        if cs[i] == '\n' {
            apply_line(&mut table, query, &cs, start, i);
            assert(lines_of(cs@.subrange(0, i + 1)).drop_last() =~= before);
            start = i + 1;
            assert(cs@.subrange(start as int, i + 1) =~= Seq::<char>::empty());
        } else {
            assert(cs@.subrange(start as int, i + 1) =~= cs@.subrange(start as int, i as int).push(
                cs@[i as int],
            ));
            assert(lines_of(cs@.subrange(0, i + 1)).drop_last() =~= before.drop_last());
        }
        i = i + 1;
    }
    assert(cs@.subrange(0, n as int) =~= query@);
    let ghost all = lines_of(query@);
    assert(all.drop_last().len() + 1 == all.len()) by {
        lemma_lines_nonempty(query@);
    }
    assert(all =~= all.drop_last().push(all.last()));
    apply_line(&mut table, query, &cs, start, n);
    assert(all.drop_last() =~= all.subrange(0, all.len() - 1));
    table
}

proof fn lemma_default_names_unique()
    ensures
        names_unique(default_table()),
{
    reveal_strlit("rdf");
    reveal_strlit("rdfs");
    reveal_strlit("owl");
    reveal_strlit("xsd");
    reveal_strlit("foaf");
    reveal_strlit("dc");
    reveal_strlit("dcterms");
    reveal_strlit("skos");
    let t = default_table();
    let names = seq!["rdf"@, "rdfs"@, "owl"@, "xsd"@, "foaf"@, "dc"@, "dcterms"@, "skos"@];
    assert forall|i: int| 0 <= i < 8 implies t[i].0 == names[i] by {}
    assert forall|i: int, j: int| 0 <= i < j < 8 implies names[i] != names[j] by {
        if names[i].len() == names[j].len() {
            assert(names[i][0] != names[j][0]);
        }
    }
}

proof fn lemma_lines_nonempty(s: Seq<char>)
    ensures
        lines_of(s).len() >= 1,
    decreases s.len(),
{
    if s.len() > 0 {
        lemma_lines_nonempty(s.drop_last());
    }
}

/// Applies the declaration of the line `cs[lo..hi]`, if it makes one.
fn apply_line(table: &mut PrefixTable, query: &str, cs: &Vec<char>, lo: usize, hi: usize)
    requires
        cs@ == query@,
        lo <= hi <= cs@.len(),
        names_unique(old(table)@),
    ensures
        names_unique(final(table)@),
        final(table)@ == match declaration_of(cs@.subrange(lo as int, hi as int)) {
            Some(d) => table_insert(old(table)@, d.0, d.1),
            None => old(table)@,
        },
{
    match declaration_bounds(cs, lo, hi) {
        Some((a, b, c, d)) => {
            let name = query.substring_char(a, b);
            let ns = query.substring_char(c, d);
            table.insert(name, ns);
        },
        None => {},
    }
}

/// Where the declaration of the line `cs[lo..hi]` has its name and its
/// namespace, if the line makes one.
fn declaration_bounds(cs: &Vec<char>, lo: usize, hi: usize) -> (r: Option<
    (usize, usize, usize, usize),
>)
    requires
        lo <= hi <= cs@.len(),
    ensures
        match r {
            Some((a, b, c, d)) => {
                &&& a <= b <= cs@.len()
                &&& c <= d <= cs@.len()
                &&& declaration_of(cs@.subrange(lo as int, hi as int)) == Some(
                    (cs@.subrange(a as int, b as int), cs@.subrange(c as int, d as int)),
                )
            },
            None => declaration_of(cs@.subrange(lo as int, hi as int)) is None,
        },
{
    let ghost line = cs@.subrange(lo as int, hi as int);
    let (ta, tb) = trimmed_bounds(cs, lo, hi);
    let ghost t = cs@.subrange(ta as int, tb as int);
    if tb - ta < 6 {
        return None;
    }
    let keyword = (cs[ta] == 'P' || cs[ta] == 'p') && (cs[ta + 1] == 'R' || cs[ta + 1] == 'r') && (
    cs[ta + 2] == 'E' || cs[ta + 2] == 'e') && (cs[ta + 3] == 'F' || cs[ta + 3] == 'f') && (cs[ta
        + 4] == 'I' || cs[ta + 4] == 'i') && (cs[ta + 5] == 'X' || cs[ta + 5] == 'x');
    if !keyword {
        return None;
    }
    assert(t.subrange(6, t.len() as int) =~= cs@.subrange(ta + 6, tb as int));
    let (ra, rb) = trimmed_bounds(cs, ta + 6, tb);
    let ghost rest = cs@.subrange(ra as int, rb as int);
    let mut k = ra;
    while k < rb && cs[k] != ':'
        invariant
            ra <= k <= rb <= cs@.len(),
            rest == cs@.subrange(ra as int, rb as int),
            forall|j: int| 0 <= j < k - ra ==> rest[j] != ':',
        decreases rb - k,
    {
        k = k + 1;
    }
    if k == rb {
        assert forall|k2: int| !first_colon_at(rest, k2) by {}
        return None;
    }
    let ghost kk = (k - ra) as int;
    assert(first_colon_at(rest, kk));
    assert forall|k2: int| first_colon_at(rest, k2) implies k2 == kk by {
        if k2 < kk {
        } else if k2 > kk {
            assert(rest[kk] == ':');
        }
    }
    assert(rest.subrange(0, kk) =~= cs@.subrange(ra as int, k as int));
    assert(rest.subrange(kk + 1, rest.len() as int) =~= cs@.subrange(k + 1, rb as int));
    let (na, nb) = trimmed_bounds(cs, ra, k);
    let (ma, mb) = trimmed_bounds(cs, k + 1, rb);
    let ghost rem = cs@.subrange(ma as int, mb as int);
    if mb - ma >= 2 && cs[ma] == '<' && cs[mb - 1] == '>' {
        assert(rem.subrange(1, rem.len() - 1) =~= cs@.subrange(ma + 1, mb - 1));
        Some((na, nb, ma + 1, mb - 1))
    } else {
        None
    }
}

} // verus!
