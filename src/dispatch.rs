//! Query execution on a local store: runs the query, checks that its result
//! has the shape the entry point serves, and projects the solutions.
use crate::engine::{
    collect_solutions, collect_triples, evaluate, solution_bindings, term_of, turtle_of, Answer,
};
use crate::error::{eval_failure_message, Error, Shape};
use oxigraph::model::Triple;
use crate::prefixes::{extract_prefixes, prefix_table_of, Entry, PrefixTable};
use crate::term::{project_term, term_scalar, Projected, RdfTerm, Scalar, TermView};
use crate::text::starts_with;
use oxigraph::store::Store;
use vstd::prelude::*;

verus! {

/// One solution: variable names with their projected values.
pub type Row = Vec<(String, Projected)>;

/// A row as plain values.
pub open spec fn row_view(r: Row) -> Seq<(Seq<char>, Scalar)> {
    r@.map_values(|c: (String, Projected)| (c.0@, c.1@))
}

/// Rows as plain values.
pub open spec fn rows_view(rs: Seq<Row>) -> Seq<Seq<(Seq<char>, Scalar)>> {
    rs.map_values(|r: Row| row_view(r))
}

/// How a front end takes a row-set query that has no solution.
#[derive(PartialEq, Eq, Structural, Clone, Copy, Debug)]
pub enum EmptyRows {
    /// An empty answer is an error (`NoResults`).
    Refuse,
    /// An empty answer is an empty row set.
    Accept,
}

/// What a query on a local store produced, once projected.
pub enum Reply {
    Rows(Vec<Row>),
    Boolean(bool),
}

/// Where a store reference points.
#[derive(PartialEq, Eq, Debug)]
pub enum Route {
    /// A remote protocol endpoint, by URL.
    Remote(String),
    /// A local store, by name or path.
    Local(String),
}

/// The reference names a remote endpoint.
pub open spec fn is_remote(reference: Seq<char>) -> bool {
    crate::text::is_prefix_of("http://"@, reference) || crate::text::is_prefix_of(
        "https://"@,
        reference,
    )
}

/// Where `reference` points: a remote endpoint when it starts with `http://` or
/// `https://`, a local store otherwise.
pub fn route(reference: &str) -> (r: Route)
    ensures
        match r {
            Route::Remote(u) => is_remote(reference@) && u@ == reference@,
            Route::Local(p) => !is_remote(reference@) && p@ == reference@,
        },
{
    if starts_with(reference, "http://") || starts_with(reference, "https://") {
        Route::Remote(String::from_str(reference))
    } else {
        Route::Local(String::from_str(reference))
    }
}

/// The rows as the front end takes them: with `Refuse`, an empty row set is
/// `NoResults`; otherwise the rows are returned as they are.
pub fn finish_rows(rows: Vec<Row>, empty: EmptyRows) -> (r: Result<Vec<Row>, Error>)
    ensures
        r is Err <==> rows@.len() == 0 && empty == EmptyRows::Refuse,
        r is Err ==> r->Err_0 is NoResults,
        r is Ok ==> r->Ok_0 == rows,
{
    if rows.len() == 0 && empty == EmptyRows::Refuse {
        Err(Error::NoResults)
    } else {
        Ok(rows)
    }
}

/// Projects one solution: each variable keeps its name, each value is its
/// term's projection under `table`.
pub fn project_row(bindings: &Vec<(String, RdfTerm)>, table: &PrefixTable) -> (r: Row)
    ensures
        r@.len() == bindings@.len(),
        forall|i: int|
            0 <= i < r@.len() ==> (#[trigger] r@[i]).0@ == bindings@[i].0@ && r@[i].1@
                == term_scalar(bindings@[i].1@, table@),
{
    let n = bindings.len();
    let mut r: Row = Vec::new();
    let mut i: usize = 0;
    while i < n
        invariant
            n == bindings@.len(),
            i <= n,
            r@.len() == i,
            forall|k: int|
                0 <= k < i ==> (#[trigger] r@[k]).0@ == bindings@[k].0@ && r@[k].1@
                    == term_scalar(bindings@[k].1@, table@),
        decreases n - i,
    {
        let name = bindings[i].0.clone();
        let value = project_term(&bindings[i].1, table);
        r.push((name, value));
        i = i + 1;
    }
    r
}

/// `context` followed by `detail`.
pub fn with_context(context: &str, detail: String) -> (r: String)
    ensures
        r@ == context@ + detail@,
{
    let mut r = String::from_str(context);
    r.append(detail.as_str());
    r
}

/// One solution as plain values: the bound variables with their terms.
pub type Bindings = Vec<(String, RdfTerm)>;

pub open spec fn bindings_view(b: Bindings) -> Seq<(Seq<char>, TermView)> {
    b@.map_values(|c: (String, RdfTerm)| (c.0@, c.1@))
}

/// The row of a solution: each variable keeps its name, each term is projected
/// under table `t`.
pub open spec fn solution_row(b: Seq<(Seq<char>, TermView)>, t: Seq<Entry>) -> Seq<
    (Seq<char>, Scalar),
> {
    b.map_values(|c: (Seq<char>, TermView)| (c.0, term_scalar(c.1, t)))
}

/// What the engine answered, as plain values; a solution or a triple that
/// could not be read is its error message.
pub enum Outcome {
    Solutions(Vec<Result<Bindings, String>>),
    Boolean(bool),
    Graph(Vec<Result<Triple, String>>),
}

pub open spec fn outcome_shape(o: Outcome) -> Shape {
    match o {
        Outcome::Solutions(_) => Shape::RowSet,
        Outcome::Boolean(_) => Shape::Boolean,
        Outcome::Graph(_) => Shape::Graph,
    }
}

/// Every item was read.
pub open spec fn all_read<T>(items: Seq<Result<T, String>>) -> bool {
    forall|i: int| 0 <= i < items.len() ==> (#[trigger] items[i]) is Ok
}

/// The rows of read solutions, one per solution, in order.
pub open spec fn rows_of(sols: Seq<Result<Bindings, String>>, t: Seq<Entry>) -> Seq<
    Seq<(Seq<char>, Scalar)>,
> {
    sols.map_values(|s: Result<Bindings, String>| solution_row(bindings_view(s->Ok_0), t))
}

/// The row-set entry point's result for an answer `o`.
pub open spec fn select_result(
    o: Outcome,
    t: Seq<Entry>,
    empty: EmptyRows,
    r: Result<Vec<Row>, Error>,
) -> bool {
    match o {
        Outcome::Solutions(sols) => if !all_read(sols@) {
            r is Err && r->Err_0 is ParseFailure
        } else if sols@.len() == 0 && empty == EmptyRows::Refuse {
            r == Err::<Vec<Row>, Error>(Error::NoResults)
        } else {
            r is Ok && rows_view(r->Ok_0@) == rows_of(sols@, t)
        },
        _ => r == Err::<Vec<Row>, Error>(
            Error::WrongResultShape { expected: Shape::RowSet, got: outcome_shape(o) },
        ),
    }
}

/// The plugin query's result for an answer `o`: rows, or a truth value.
pub open spec fn rows_or_boolean_result(o: Outcome, t: Seq<Entry>, r: Result<Reply, Error>) -> bool {
    match o {
        Outcome::Solutions(sols) => if !all_read(sols@) {
            r is Err && r->Err_0 is ParseFailure
        } else {
            r is Ok && r->Ok_0 is Rows && rows_view(r->Ok_0->Rows_0@) == rows_of(sols@, t)
        },
        Outcome::Boolean(b) => r is Ok && r->Ok_0 == Reply::Boolean(b),
        Outcome::Graph(_) => r == Err::<Reply, Error>(
            Error::WrongResultShape { expected: Shape::RowSet, got: Shape::Graph },
        ),
    }
}

/// The truth-value entry point's result for an answer `o`.
pub open spec fn ask_result(o: Outcome, r: Result<bool, Error>) -> bool {
    match o {
        Outcome::Boolean(b) => r == Ok::<bool, Error>(b),
        _ => r == Err::<bool, Error>(
            Error::WrongResultShape { expected: Shape::Boolean, got: outcome_shape(o) },
        ),
    }
}

/// The graph entry point's result for an answer `o` (the Turtle text itself is
/// the serializer's).
pub open spec fn construct_result(o: Outcome, r: Result<String, Error>) -> bool {
    match o {
        Outcome::Graph(triples) => if !all_read(triples@) {
            r is Err && r->Err_0 is ParseFailure
        } else {
            r is Ok || r->Err_0 is ParseFailure
        },
        _ => r == Err::<String, Error>(
            Error::WrongResultShape { expected: Shape::Graph, got: outcome_shape(o) },
        ),
    }
}

/// The evaluation failed: `ParseFailure` with the engine's message.
pub open spec fn eval_failed<T>(r: Result<T, Error>) -> bool {
    r is Err && r->Err_0 is ParseFailure && exists|m: Seq<char>|
        r->Err_0->ParseFailure_0@ == eval_failure_message(m)
}

/// The shape of an answer.
pub fn shape_of(o: &Outcome) -> (r: Shape)
    ensures
        r == outcome_shape(*o),
{
    match o {
        Outcome::Solutions(_) => Shape::RowSet,
        Outcome::Boolean(_) => Shape::Boolean,
        Outcome::Graph(_) => Shape::Graph,
    }
}

/// Rows of the solutions, one per solution in order, or the first solution
/// that could not be read.
pub fn solution_rows(sols: &Vec<Result<Bindings, String>>, table: &PrefixTable) -> (r: Result<
    Vec<Row>,
    Error,
>)
    ensures
        !all_read(sols@) ==> r is Err && r->Err_0 is ParseFailure,
        all_read(sols@) ==> r is Ok && rows_view(r->Ok_0@) == rows_of(sols@, table@),
{
    let n = sols.len();
    let mut rows: Vec<Row> = Vec::new();
    let mut i: usize = 0;
    while i < n
        invariant
            n == sols@.len(),
            i <= n,
            all_read(sols@.subrange(0, i as int)),
            rows_view(rows@) == rows_of(sols@.subrange(0, i as int), table@),
        decreases n - i,
    {
        let b = match &sols[i] {
            Ok(b) => b,
            Err(m) => {
                assert(!(sols@[i as int] is Ok));
                return Err(Error::ParseFailure(with_context("Error reading solution: ", m.clone())));
            },
        };
        let row = project_row(b, table);
        let ghost old_rows = rows@;
        rows.push(row);
        assert(sols@[i as int] == Ok::<Bindings, String>(*b));
        assert(row_view(row) =~= solution_row(bindings_view(*b), table@));
        assert(rows@ =~= old_rows.push(row));
        assert(rows_view(rows@) =~= rows_view(old_rows).push(row_view(row)));
        assert(sols@.subrange(0, i + 1) =~= sols@.subrange(0, i as int).push(sols@[i as int]));
        assert(rows_of(sols@.subrange(0, i + 1), table@) =~= rows_of(sols@.subrange(0, i as int), table@).push(
            solution_row(bindings_view(*b), table@),
        ));
        i = i + 1;
    }
    assert(sols@.subrange(0, n as int) =~= sols@);
    Ok(rows)
}

/// The row-set entry point on an answer: solutions become rows, one per
/// solution in order; a truth value or a graph is `WrongResultShape`; with
/// `Refuse`, no solution is `NoResults`.
pub fn select_reply(o: Outcome, table: &PrefixTable, empty: EmptyRows) -> (r: Result<Vec<Row>, Error>)
    ensures
        select_result(o, table@, empty, r),
{
    let shape = shape_of(&o);
    match o {
        Outcome::Solutions(sols) => {
            let rows = solution_rows(&sols, table)?;
            assert(rows@.len() == rows_view(rows@).len());
            assert(rows@.len() == sols@.len());
            finish_rows(rows, empty)
        },
        _ => Err(Error::WrongResultShape { expected: Shape::RowSet, got: shape }),
    }
}

/// The plugin query on an answer: solutions become rows (none is an empty
/// row set), a truth value stays one, a graph is `WrongResultShape`.
pub fn rows_or_boolean_reply(o: Outcome, table: &PrefixTable) -> (r: Result<Reply, Error>)
    ensures
        rows_or_boolean_result(o, table@, r),
{
    match o {
        Outcome::Solutions(sols) => {
            let rows = solution_rows(&sols, table)?;
            Ok(Reply::Rows(rows))
        },
        Outcome::Boolean(b) => Ok(Reply::Boolean(b)),
        Outcome::Graph(_) => Err(Error::WrongResultShape { expected: Shape::RowSet, got: Shape::Graph }),
    }
}

/// The truth-value entry point on an answer.
pub fn ask_reply(o: Outcome) -> (r: Result<bool, Error>)
    ensures
        ask_result(o, r),
{
    let shape = shape_of(&o);
    match o {
        Outcome::Boolean(b) => Ok(b),
        _ => Err(Error::WrongResultShape { expected: Shape::Boolean, got: shape }),
    }
}

/// The graph entry point on an answer: the triples as Turtle.
pub fn construct_reply(o: Outcome) -> (r: Result<String, Error>)
    ensures
        construct_result(o, r),
{
    let shape = shape_of(&o);
    let ghost given = o;
    let results = match o {
        Outcome::Graph(t) => t,
        _ => {
            return Err(Error::WrongResultShape { expected: Shape::Graph, got: shape });
        },
    };
    let n = results.len();
    let mut triples: Vec<Triple> = Vec::new();
    let mut i: usize = 0;
    while i < n
        invariant
            n == results@.len(),
            i <= n,
            given == o,
            given == Outcome::Graph(results),
            all_read(results@.subrange(0, i as int)),
        decreases n - i,
    {
        match &results[i] {
            Ok(t) => triples.push(t.clone()),
            Err(m) => {
                assert(!(results@[i as int] is Ok));
                assert(!all_read(results@));
                return Err(Error::ParseFailure(with_context("Error reading triple: ", m.clone())));
            },
        }
        assert(results@.subrange(0, i + 1) =~= results@.subrange(0, i as int).push(results@[i as int]));
        i = i + 1;
    }
    assert(results@.subrange(0, n as int) =~= results@);
    let bytes = match turtle_of(&triples) {
        Ok(b) => b,
        Err(e) => {
            return Err(Error::ParseFailure(with_context("Error serializing triples: ", e.to_string())));
        },
    };
    match crate::text::utf8_text(bytes.as_slice()) {
        Ok(s) => Ok(s),
        Err(e) => Err(Error::ParseFailure(with_context("UTF-8 error: ", e))),
    }
}

/// The engine's answer as plain values.
fn outcome_of(a: Answer) -> Outcome {
    match a {
        Answer::Solutions(it) => {
            let items = collect_solutions(it);
            let n = items.len();
            let mut sols: Vec<Result<Bindings, String>> = Vec::new();
            let mut i: usize = 0;
            while i < n
                invariant
                    n == items@.len(),
                    i <= n,
                decreases n - i,
            {
                match &items[i] {
                    Ok(solution) => {
                        let raw = solution_bindings(solution);
                        let m = raw.len();
                        let mut b: Bindings = Vec::new();
                        let mut j: usize = 0;
                        while j < m
                            invariant
                                m == raw@.len(),
                                j <= m,
                            decreases m - j,
                        {
                            b.push((raw[j].0.clone(), term_of(&raw[j].1)));
                            j = j + 1;
                        }
                        sols.push(Ok(b));
                    },
                    Err(e) => sols.push(Err(e.to_string())),
                }
                i = i + 1;
            }
            Outcome::Solutions(sols)
        },
        Answer::Boolean(b) => Outcome::Boolean(b),
        Answer::Graph(it) => {
            let items = collect_triples(it);
            let n = items.len();
            let mut triples: Vec<Result<Triple, String>> = Vec::new();
            let mut i: usize = 0;
            while i < n
                invariant
                    n == items@.len(),
                    i <= n,
                decreases n - i,
            {
                match &items[i] {
                    Ok(t) => triples.push(Ok(t.clone())),
                    Err(e) => triples.push(Err(e.to_string())),
                }
                i = i + 1;
            }
            Outcome::Graph(triples)
        },
    }
}

/// Evaluates the query on the store; an evaluation failure is `ParseFailure`.
fn run(store: &Store, query: &str) -> (r: Result<Outcome, Error>)
    ensures
        r is Err ==> eval_failed(r),
{
    match evaluate(store, query) {
        Ok(a) => Ok(outcome_of(a)),
        Err(e) => {
            let m = e.to_string();
            let t = with_context("SPARQL query execution failed: ", m);
            proof {
                reveal_strlit("SPARQL query execution failed: ");
            }
            assert(t@ == eval_failure_message(m@));
            Err(Error::ParseFailure(t))
        },
    }
}

/// Runs a row-set (SELECT) query: `select_reply` on whatever the engine
/// answered, with the query's prefix table; or the evaluation failure.
pub fn query_select(store: &Store, query: &str, empty: EmptyRows) -> (r: Result<Vec<Row>, Error>)
    ensures
        eval_failed(r) || exists|o: Outcome| select_result(o, prefix_table_of(query@), empty, r),
{
    let table = extract_prefixes(query);
    let o = run(store, query)?;
    select_reply(o, &table, empty)
}

/// Runs a query for the plugin front end: `rows_or_boolean_reply` on whatever
/// the engine answered, with the query's prefix table; or the evaluation failure.
pub fn query_rows_or_boolean(store: &Store, query: &str) -> (r: Result<Reply, Error>)
    ensures
        eval_failed(r) || exists|o: Outcome| rows_or_boolean_result(o, prefix_table_of(query@), r),
{
    let table = extract_prefixes(query);
    let o = run(store, query)?;
    rows_or_boolean_reply(o, &table)
}

/// Runs a truth-value (ASK) query: `ask_reply` on whatever the engine
/// answered; or the evaluation failure.
pub fn query_ask(store: &Store, query: &str) -> (r: Result<bool, Error>)
    ensures
        eval_failed(r) || exists|o: Outcome| ask_result(o, r),
{
    let o = run(store, query)?;
    ask_reply(o)
}

/// Runs a graph (CONSTRUCT) query: `construct_reply` on whatever the engine
/// answered; or the evaluation failure.
pub fn query_construct(store: &Store, query: &str) -> (r: Result<String, Error>)
    ensures
        eval_failed(r) || exists|o: Outcome| construct_result(o, r),
{
    let o = run(store, query)?;
    construct_reply(o)
}

} // verus!
