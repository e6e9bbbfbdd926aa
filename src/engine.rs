//! The boundary with the graph database engine (oxigraph): the engine's types
//! and the calls the library makes into it. Each item here is taken on trust.
use crate::term::RdfTerm;
use oxigraph::io::{RdfFormat, RdfParser, RdfSerializer};
use oxigraph::model::{IriParseError, Term, Triple};
use oxigraph::sparql::{
    QueryEvaluationError, QueryResults, QuerySolution, QuerySolutionIter, QueryTripleIter,
};
use oxigraph::store::{LoaderError, StorageError, Store};
use vstd::prelude::*;

verus! {

#[verifier::external_type_specification]
#[verifier::external_body]
pub struct ExStore(Store);

#[verifier::external_type_specification]
#[verifier::external_body]
pub struct ExStorageError(StorageError);

#[verifier::external_type_specification]
#[verifier::external_body]
pub struct ExLoaderError(LoaderError);

#[verifier::external_type_specification]
#[verifier::external_body]
pub struct ExQueryEvaluationError(QueryEvaluationError);

#[verifier::external_type_specification]
#[verifier::external_body]
pub struct ExQuerySolutionIter<'a>(QuerySolutionIter<'a>);

#[verifier::external_type_specification]
#[verifier::external_body]
pub struct ExQueryTripleIter<'a>(QueryTripleIter<'a>);

#[verifier::external_type_specification]
#[verifier::external_body]
pub struct ExQuerySolution(QuerySolution);

#[verifier::external_type_specification]
#[verifier::external_body]
pub struct ExTerm(Term);

#[verifier::external_type_specification]
#[verifier::external_body]
pub struct ExTriple(Triple);

#[verifier::external_type_specification]
#[verifier::external_body]
pub struct ExRdfParser(RdfParser);

#[verifier::external_type_specification]
#[verifier::external_body]
pub struct ExIriParseError(IriParseError);

#[verifier::external_type_specification]
#[verifier::external_body]
pub struct ExIoError(std::io::Error);


/// Relies on `Store::new`: a new, empty in-memory store.
pub assume_specification[ Store::new ]() -> Result<Store, StorageError>;

/// Relies on `Store::len`: the number of quads in the store.
pub assume_specification[ Store::len ](store: &Store) -> Result<usize, StorageError>;

/// Relies on `Store::clear`: removes every quad of the store.
pub assume_specification[ Store::clear ](store: &Store) -> Result<(), StorageError>;


/// Relies on `Triple`'s `Clone`: a copy of the triple.
pub assume_specification[ <Triple as Clone>::clone ](t: &Triple) -> Triple;

/// The graph-data formats the library loads.
#[derive(PartialEq, Eq, Structural, Clone, Copy, Debug)]
pub enum DataFormat {
    Turtle,
    RdfXml,
    NTriples,
}

/// What a query produced, by shape.
pub enum Answer {
    Solutions(QuerySolutionIter<'static>),
    Boolean(bool),
    Graph(QueryTripleIter<'static>),
}

/// Relies on `RdfParser::from_format`: a parser of the given format.
#[verifier::external_body]
pub(crate) fn parser_for(format: DataFormat) -> RdfParser {
    RdfParser::from_format(
        match format {
            DataFormat::Turtle => RdfFormat::Turtle,
            DataFormat::RdfXml => RdfFormat::RdfXml,
            DataFormat::NTriples => RdfFormat::NTriples,
        },
    )
}

/// Relies on `RdfParser::with_base_iri`: sets the IRI that relative IRIs resolve
/// against, refusing one that is not an absolute IRI.
#[verifier::external_body]
pub(crate) fn with_base_iri(parser: RdfParser, base_iri: &str) -> Result<RdfParser, IriParseError> {
    parser.with_base_iri(base_iri)
}

/// Relies on `Store::load_from_reader`: parses `data` and adds its quads to the
/// store in one transaction, or fails and adds none.
#[verifier::external_body]
pub(crate) fn load_into(store: &Store, parser: RdfParser, data: &[u8]) -> Result<(), LoaderError> {
    store.load_from_reader(parser, data)
}

/// Relies on `Store::query`: parses and evaluates a SPARQL query; the shape of
/// the result is the query's form.
#[verifier::external_body]
#[allow(deprecated)]
pub(crate) fn evaluate(store: &Store, query: &str) -> Result<Answer, QueryEvaluationError> {
    match store.query(query) {
        Ok(QueryResults::Solutions(s)) => Ok(Answer::Solutions(s)),
        Ok(QueryResults::Boolean(b)) => Ok(Answer::Boolean(b)),
        Ok(QueryResults::Graph(g)) => Ok(Answer::Graph(g)),
        Err(e) => Err(e),
    }
}

/// Relies on `QuerySolutionIter`'s `Iterator` impl: the solutions in order.
#[verifier::external_body]
pub(crate) fn collect_solutions(it: QuerySolutionIter<'static>) -> Vec<
    Result<QuerySolution, QueryEvaluationError>,
> {
    it.collect()
}

/// Relies on `QueryTripleIter`'s `Iterator` impl: the triples in order.
#[verifier::external_body]
pub(crate) fn collect_triples(it: QueryTripleIter<'static>) -> Vec<
    Result<Triple, QueryEvaluationError>,
> {
    it.collect()
}

/// Relies on `QuerySolution::iter` and `Variable::as_str`: the bound variables of
/// a solution, by name, with their values.
#[verifier::external_body]
pub(crate) fn solution_bindings(solution: &QuerySolution) -> Vec<(String, Term)> {
    solution.iter().map(|(v, t)| (v.as_str().to_string(), t.clone())).collect()
}

/// Relies on the accessors of `Term` and `Literal`: the term as plain strings.
#[verifier::external_body]
pub(crate) fn term_of(term: &Term) -> RdfTerm {
    match term {
        Term::NamedNode(n) => RdfTerm::Iri(n.as_str().to_string()),
        Term::BlankNode(b) => RdfTerm::Blank(b.as_str().to_string()),
        Term::Literal(l) => RdfTerm::Literal {
            value: l.value().to_string(),
            datatype: Some(l.datatype().as_str().to_string()),
            language: l.language().map(|s| s.to_string()),
        },
    }
}

/// Relies on `RdfSerializer` (`from_format`, `for_writer`, `serialize_triple`,
/// `finish`): the triples, in order, as a Turtle document.
#[verifier::external_body]
pub(crate) fn turtle_of(triples: &Vec<Triple>) -> Result<Vec<u8>, std::io::Error> {
    let mut w = RdfSerializer::from_format(RdfFormat::Turtle).for_writer(Vec::new());
    for t in triples {
        w.serialize_triple(t)?;
    }
    w.finish()
}

} // verus!
