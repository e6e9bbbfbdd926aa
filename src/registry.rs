//! The named-store registry: store handles by name, created on first
//! reference, never renamed or merged.
use crate::engine::{load_into, parser_for, with_base_iri, DataFormat};
use crate::error::Error;
use crate::dispatch::{is_remote, route, with_context, Route};
use crate::text::text_eq;
use oxigraph::store::Store;
use vstd::prelude::*;

verus! {

/// The name of the store every registry starts with.
pub open spec fn default_store_name() -> Seq<char> {
    "memory"@
}

/// The registry after `get_or_create(name)` where the engine, if asked for a
/// new store, gave `created`; and the handle returned.
pub open spec fn get_or_create_step(
    m: Map<Seq<char>, Store>,
    name: Seq<char>,
    created: Store,
) -> (Map<Seq<char>, Store>, Store) {
    if m.contains_key(name) {
        (m, m[name])
    } else {
        (m.insert(name, created), created)
    }
}

/// Where a store reference leads: a remote endpoint, or a registered store.
pub enum Resolved<'a> {
    Remote(String),
    Local(&'a Store),
}

/// Calling `get_or_create` twice with one name gives the same handle, and the
/// second call leaves the registry as the first left it: a triple loaded
/// through the first handle is seen through the second.
pub proof fn lemma_get_or_create_idempotent(
    m: Map<Seq<char>, Store>,
    name: Seq<char>,
    created1: Store,
    created2: Store,
)
    ensures
        ({
            let (m1, h1) = get_or_create_step(m, name, created1);
            let (m2, h2) = get_or_create_step(m1, name, created2);
            m2 == m1 && h2 == h1 && m1.contains_key(name) && m1[name] == h1
        }),
{
}

/// A mapping from store names to store handles.
pub struct Registry {
    entries: Vec<(String, Store)>,
    stores: Ghost<Map<Seq<char>, Store>>,
}

impl View for Registry {
    type V = Map<Seq<char>, Store>;

    closed spec fn view(&self) -> Map<Seq<char>, Store> {
        self.stores@
    }
}

impl Registry {
    /// The entries agree with the mapping, one entry per name.
    pub closed spec fn wf(&self) -> bool {
        &&& forall|i: int, j: int|
            0 <= i < j < self.entries@.len() ==> self.entries@[i].0@ != self.entries@[j].0@
        &&& forall|i: int|
            0 <= i < self.entries@.len() ==> #[trigger] self.stores@.contains_key(
                self.entries@[i].0@,
            ) && self.stores@[self.entries@[i].0@] == self.entries@[i].1
        &&& forall|k: Seq<char>|
            #[trigger] self.stores@.contains_key(k) ==> exists|i: int|
                0 <= i < self.entries@.len() && self.entries@[i].0@ == k
    }

    /// The registry names, in the order they were created.
    pub closed spec fn names(&self) -> Seq<Seq<char>> {
        self.entries@.map_values(|e: (String, Store)| e.0@)
    }

    /// A registry holding one new empty store, named `memory`.
    pub fn new() -> (r: Result<Registry, Error>)
        ensures
            match r {
                Ok(reg) => reg.wf() && reg@.dom() == set![default_store_name()],
                Err(e) => e is Storage,
            },
    {
        let store = match Store::new() {
            Ok(s) => s,
            Err(e) => {
                return Err(Error::Storage(e.to_string()));
            },
        };
        let mut reg = Registry { entries: Vec::new(), stores: Ghost(Map::empty()) };
        reg.add(String::from_str("memory"), store);
        assert(reg@.dom() =~= set![default_store_name()]);
        Ok(reg)
    }

    fn add(&mut self, name: String, store: Store)
        requires
            old(self).wf(),
            !old(self)@.contains_key(name@),
        ensures
            final(self).wf(),
            final(self)@ == old(self)@.insert(name@, store),
            final(self).names() == old(self).names().push(name@),
            final(self).entries@.len() == old(self).entries@.len() + 1,
            final(self).entries@.last().1 == store,
    {
        let ghost k = name@;
        let ghost n = self.entries@.len();
        self.entries.push((name, store));
        self.stores = Ghost(self.stores@.insert(k, store));
        assert forall|i: int, j: int|
            0 <= i < j < self.entries@.len() implies self.entries@[i].0@
            != self.entries@[j].0@ by {
            if j == n {
                assert(old(self).stores@.contains_key(old(self).entries@[i].0@));
            }
        }
        assert forall|q: Seq<char>| #[trigger] self.stores@.contains_key(q) implies exists|i: int|
            0 <= i < self.entries@.len() && self.entries@[i].0@ == q by {
            if q == k {
                assert(self.entries@[n as int].0@ == q);
            } else {
                assert(old(self).stores@.contains_key(q));
                let i = choose|i: int| 0 <= i < old(self).entries@.len() && old(self).entries@[i].0@ == q;
                assert(self.entries@[i].0@ == q);
            }
        }
        assert(self.names() =~= old(self).names().push(k));
    }

    /// The position of the entry named `name`.
    fn find(&self, name: &str) -> (r: Option<usize>)
        requires
            self.wf(),
        ensures
            match r {
                Some(i) => i < self.entries@.len() && self.entries@[i as int].0@ == name@,
                None => !self@.contains_key(name@),
            },
    {
        let n = self.entries.len();
        let mut i: usize = 0;
        while i < n
            invariant
                self.wf(),
                n == self.entries@.len(),
                i <= n,
                forall|k: int| 0 <= k < i ==> self.entries@[k].0@ != name@,
            decreases n - i,
        {
            if text_eq(self.entries[i].0.as_str(), name) {
                return Some(i);
            }
            i = i + 1;
        }
        None
    }

    /// Whether a store is registered under `name`.
    pub fn contains(&self, name: &str) -> (r: bool)
        requires
            self.wf(),
        ensures
            r == self@.contains_key(name@),
    {
        match self.find(name) {
            Some(_) => true,
            None => false,
        }
    }

    /// The store registered under `name`; never creates one.
    pub fn get(&self, name: &str) -> (r: Option<&Store>)
        requires
            self.wf(),
        ensures
            match r {
                Some(s) => self@.contains_key(name@) && *s == self@[name@],
                None => !self@.contains_key(name@),
            },
    {
        match self.find(name) {
            Some(i) => {
                assert(self.stores@.contains_key(self.entries@[i as int].0@));
                Some(&self.entries[i].1)
            },
            None => None,
        }
    }

    /// The store registered under `name`, created empty and registered first
    /// if there is none. Fails only where the engine cannot create a store.
    pub fn get_or_create(&mut self, name: &str) -> (r: Result<&Store, Error>)
        requires
            old(self).wf(),
        ensures
            final(self).wf(),
            match r {
                Ok(s) => (final(self)@, *s) == get_or_create_step(old(self)@, name@, *s),
                Err(e) => e is Storage && !old(self)@.contains_key(name@) && final(self)@ == old(
                    self,
                )@,
            },
    {
        match self.find(name) {
            Some(i) => {
                assert(self.stores@.contains_key(self.entries@[i as int].0@));
                Ok(&self.entries[i].1)
            },
            None => {
                let store = match Store::new() {
                    Ok(s) => s,
                    Err(e) => {
                        return Err(Error::Storage(with_context("Failed to create store: ", e.to_string())));
                    },
                };
                self.add(String::from_str(name), store);
                let last = self.entries.len() - 1;
                Ok(&self.entries[last].1)
            },
        }
    }

    /// Loads graph data into the store `name`, creating that store first if
    /// there is none. No other name is touched, and an existing store is kept.
    pub fn load(&mut self, name: &str, format: DataFormat, data: &[u8]) -> (r: Result<(), Error>)
        requires
            old(self).wf(),
        ensures
            final(self).wf(),
            old(self)@.contains_key(name@) ==> final(self)@ == old(self)@,
            !old(self)@.contains_key(name@) ==> final(self)@ == old(self)@ || exists|s: Store|
                final(self)@ == old(self)@.insert(name@, s),
            r is Ok ==> final(self)@.contains_key(name@),
            r is Err ==> r->Err_0 is Storage || r->Err_0 is ParseFailure,
    {
        let store = self.get_or_create(name)?;
        load_bytes(store, format, data, None)
    }

    /// Removes every triple of the store `name`, keeping the name registered.
    /// An unknown name is `NotFound`; nothing is created.
    pub fn clear(&self, name: &str) -> (r: Result<(), Error>)
        requires
            self.wf(),
        ensures
            !self@.contains_key(name@) ==> r is Err && r->Err_0 is NotFound && r->Err_0->NotFound_0@
                == name@,
            self@.contains_key(name@) ==> r is Ok || r->Err_0 is Storage,
    {
        match self.get(name) {
            Some(store) => match store.clear() {
                Ok(()) => Ok(()),
                Err(e) => Err(Error::Storage(with_context("Failed to clear store: ", e.to_string()))),
            },
            None => Err(Error::NotFound(String::from_str(name))),
        }
    }

    /// The number of triples in the store `name`. An unknown name is
    /// `NotFound`; nothing is created.
    pub fn size(&self, name: &str) -> (r: Result<usize, Error>)
        requires
            self.wf(),
        ensures
            !self@.contains_key(name@) ==> r is Err && r->Err_0 is NotFound && r->Err_0->NotFound_0@
                == name@,
            self@.contains_key(name@) ==> r is Ok || r->Err_0 is Storage,
    {
        match self.get(name) {
            Some(store) => triple_count(store),
            None => Err(Error::NotFound(String::from_str(name))),
        }
    }

    /// Resolves a store reference: one starting with `http://` or `https://` is
    /// a remote endpoint and the registry is not consulted; any other is a
    /// store name, `NotFound` where none is registered. Never creates a store.
    pub fn resolve(&self, reference: &str) -> (r: Result<Resolved<'_>, Error>)
        requires
            self.wf(),
        ensures
            is_remote(reference@) ==> r is Ok && r->Ok_0 is Remote && r->Ok_0->Remote_0@
                == reference@,
            !is_remote(reference@) && self@.contains_key(reference@) ==> r is Ok && r->Ok_0 is Local
                && *r->Ok_0->Local_0 == self@[reference@],
            !is_remote(reference@) && !self@.contains_key(reference@) ==> r is Err && r->Err_0 is NotFound
                && r->Err_0->NotFound_0@ == reference@,
    {
        match route(reference) {
            Route::Remote(url) => Ok(Resolved::Remote(url)),
            Route::Local(name) => match self.get(name.as_str()) {
                Some(store) => Ok(Resolved::Local(store)),
                None => Err(Error::NotFound(name)),
            },
        }
    }

    /// The registered names, in the order the stores were created.
    pub fn list(&self) -> (r: Vec<String>)
        requires
            self.wf(),
        ensures
            r@.len() == self.names().len(),
            forall|i: int| 0 <= i < r@.len() ==> r@[i]@ == self.names()[i],
            forall|k: Seq<char>| self@.contains_key(k) <==> self.names().contains(k),
            self.names().no_duplicates(),
    {
        let n = self.entries.len();
        let mut r: Vec<String> = Vec::new();
        let mut i: usize = 0;
        while i < n
            invariant
                self.wf(),
                n == self.entries@.len(),
                i <= n,
                r@.len() == i,
                forall|k: int| 0 <= k < i ==> r@[k]@ == self.names()[k],
            decreases n - i,
        {
            r.push(self.entries[i].0.clone());
            i = i + 1;
        }
        assert forall|a: int, b: int|
            0 <= a < self.names().len() && 0 <= b < self.names().len() && a != b implies self.names()[a]
            != self.names()[b] by {
            if a < b {
                assert(self.entries@[a].0@ != self.entries@[b].0@);
            } else {
                assert(self.entries@[b].0@ != self.entries@[a].0@);
            }
        }
        assert forall|k: Seq<char>| self@.contains_key(k) <==> self.names().contains(k) by {
            if self@.contains_key(k) {
                let i = choose|i: int| 0 <= i < self.entries@.len() && self.entries@[i].0@ == k;
                assert(self.names()[i] == k);
            }
            if self.names().contains(k) {
                let i = choose|i: int| 0 <= i < self.names().len() && self.names()[i] == k;
                assert(self.stores@.contains_key(self.entries@[i].0@));
            }
        }
        r
    }
}

/// The number of triples in `store`.
pub fn triple_count(store: &Store) -> (r: Result<usize, Error>)
    ensures
        r is Err ==> r->Err_0 is Storage,
{
    match store.len() {
        Ok(n) => Ok(n),
        Err(e) => Err(Error::Storage(with_context("Failed to get store size: ", e.to_string()))),
    }
}

/// The name of a data format in messages.
pub fn format_name(format: DataFormat) -> &'static str {
    match format {
        DataFormat::Turtle => "Turtle",
        DataFormat::RdfXml => "RDF/XML",
        DataFormat::NTriples => "N-Triples",
    }
}

/// Parses `data` in `format` and adds its triples to `store`, resolving
/// relative IRIs against `base_iri` where one is given (else the engine's
/// default applies). Malformed data, or a base that is not an absolute IRI,
/// is `ParseFailure`, and then nothing is added.
pub fn load_bytes(store: &Store, format: DataFormat, data: &[u8], base_iri: Option<&str>) -> (r:
    Result<(), Error>)
    ensures
        r is Err ==> r->Err_0 is ParseFailure,
{
    let mut parser = parser_for(format);
    match base_iri {
        Some(iri) => {
            parser = match with_base_iri(parser, iri) {
                Ok(p) => p,
                Err(e) => {
                    return Err(Error::ParseFailure(with_context("Invalid base IRI: ", e.to_string())));
                },
            };
        },
        None => {},
    }
    match load_into(store, parser, data) {
        Ok(()) => Ok(()),
        Err(e) => {
            let mut m = String::from_str("Failed to parse ");
            m.append(format_name(format));
            m.append(" data: ");
            m.append(e.to_string().as_str());
            Err(Error::ParseFailure(m))
        },
    }
}

} // verus!
