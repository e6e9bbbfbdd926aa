//! The plugin boundary: every operation takes names and payloads as bytes and
//! answers with bytes. A failure is answered with `ERROR: ` and a message,
//! the only error signal that crosses the boundary.
use crate::dispatch::{
    all_read, ask_result, construct_result, eval_failed, outcome_shape, query_rows_or_boolean,
    rows_of, rows_or_boolean_result, Outcome, Reply,
};
use crate::engine::DataFormat;
use crate::error::{eval_failure_message, not_found_message, shape_message, Error, Shape};
use crate::json::{boolean_json, boolean_text, count_text, names_json, names_text, nat_text, rows_json, rows_text};
use crate::prefixes::{prefix_table_of, Entry};
use crate::registry::Registry;
use crate::text::utf8_text;
use vstd::prelude::*;
use vstd::utf8::{decode_utf8, encode_scalar, encode_utf8, valid_utf8};

verus! {

/// The reply for a failure with message `msg`.
pub open spec fn error_reply(msg: Seq<char>) -> Seq<u8> {
    encode_utf8("ERROR: "@ + msg)
}

/// The reply for a success that carries `text`.
pub open spec fn text_reply(text: Seq<char>) -> Seq<u8> {
    encode_utf8(text)
}

/// `r` is the failure reply for an input that is not valid UTF-8; the message
/// starts with `what`.
pub open spec fn invalid_input_reply(what: Seq<char>, r: Seq<u8>) -> bool {
    exists|m: Seq<char>| r == error_reply(what + m)
}

/// `r` is a failure reply.
pub open spec fn is_error_reply(r: Seq<u8>) -> bool {
    exists|m: Seq<char>| r == error_reply(m)
}

/// A success reply that starts with another character than `E` is no
/// failure reply.
pub proof fn lemma_text_reply_not_error(text: Seq<char>, m: Seq<char>)
    requires
        text.len() > 0,
        (text[0] as u32) != 69,
        (text[0] as u32) < 128,
    ensures
        text_reply(text) != error_reply(m),
{
    reveal_strlit("ERROR: ");
    let b = "ERROR: "@ + m;
    assert(b[0] == 'E');
    let x = text[0] as u32;
    let y = b[0] as u32;
    assert(y == 69);
    assert((x & 0x7F) == x) by (bit_vector)
        requires
            x < 128,
    ;
    assert((y & 0x7F) == y) by (bit_vector)
        requires
            y < 128,
    ;
    assert(encode_scalar(x) == seq![(x & 0x7F) as u8]);
    assert(encode_scalar(y) == seq![(y & 0x7F) as u8]);
    assert(encode_utf8(text)[0] == x as u8);
    assert(encode_utf8(b)[0] == y as u8);
}

fn to_bytes(s: &str) -> (r: Vec<u8>)
    ensures
        r@ == encode_utf8(s@),
{
    s.as_bytes_vec()
}

fn error_bytes(msg: &str) -> (r: Vec<u8>)
    ensures
        r@ == error_reply(msg@),
        is_error_reply(r@),
{
    let mut t = String::from_str("ERROR: ");
    t.append(msg);
    let r = to_bytes(t.as_str());
    assert(r@ == error_reply(msg@));
    r
}

/// The reply for an error: `ERROR: ` and its message.
fn failure(e: &Error) -> (r: Vec<u8>)
    ensures
        is_error_reply(r@),
        e is NotFound ==> r@ == error_reply(not_found_message(e->NotFound_0@)),
        e is WrongResultShape ==> r@ == error_reply(shape_message(e->got)),
        e is ParseFailure ==> r@ == error_reply(e->ParseFailure_0@),
{
    let m = e.message();
    error_bytes(m.as_str())
}

/// A name or a query decoded from UTF-8; where it is not valid, the message
/// says `what` was invalid, and why.
fn decode(bytes: &[u8], what: &str) -> (r: Result<String, String>)
    ensures
        r is Ok <==> valid_utf8(bytes@),
        r is Ok ==> r->Ok_0@ == decode_utf8(bytes@),
        r is Err ==> exists|m: Seq<char>| r->Err_0@ == what@ + m,
{
    match utf8_text(bytes) {
        Ok(s) => Ok(s),
        Err(m) => {
            let mut t = String::from_str(what);
            t.append(m.as_str());
            Err(t)
        },
    }
}

fn load_format(registry: &mut Registry, store_name: &[u8], data: &[u8], format: DataFormat) -> (r:
    Vec<u8>)
    requires
        old(registry).wf(),
    ensures
        final(registry).wf(),
        !valid_utf8(store_name@) ==> invalid_input_reply("Invalid store name: "@, r@)
            && final(registry)@ == old(registry)@,
        valid_utf8(store_name@) ==> {
            let name = decode_utf8(store_name@);
            &&& old(registry)@.contains_key(name) ==> final(registry)@ == old(registry)@
            &&& !old(registry)@.contains_key(name) ==> final(registry)@ == old(registry)@ || exists|
                s: oxigraph::store::Store,
            | final(registry)@ == old(registry)@.insert(name, s)
            &&& r@ == text_reply("OK"@) ==> final(registry)@.contains_key(name)
            &&& r@ == text_reply("OK"@) || is_error_reply(r@)
        },
{
    let name = match decode(store_name, "Invalid store name: ") {
        Ok(n) => n,
        Err(m) => {
            let r = error_bytes(m.as_str());
            proof {
                let w = choose|w: Seq<char>| m@ == "Invalid store name: "@ + w;
                assert(r@ == error_reply("Invalid store name: "@ + w));
            }
            return r;
        },
    };
    match registry.load(name.as_str(), format, data) {
        Ok(()) => to_bytes("OK"),
        Err(e) => {
            let r = failure(&e);
            proof {
                reveal_strlit("OK");
                let m = choose|m: Seq<char>| r@ == error_reply(m);
                lemma_text_reply_not_error("OK"@, m);
            }
            r
        },
    }
}

/// Loads Turtle data into the store `store_name`, creating it if needed;
/// answers `OK` or an error.
pub fn load_turtle(registry: &mut Registry, store_name: &[u8], turtle_data: &[u8]) -> (r: Vec<u8>)
    requires
        old(registry).wf(),
    ensures
        final(registry).wf(),
        !valid_utf8(store_name@) ==> invalid_input_reply("Invalid store name: "@, r@)
            && final(registry)@ == old(registry)@,
        valid_utf8(store_name@) ==> {
            let name = decode_utf8(store_name@);
            &&& old(registry)@.contains_key(name) ==> final(registry)@ == old(registry)@
            &&& !old(registry)@.contains_key(name) ==> final(registry)@ == old(registry)@ || exists|
                s: oxigraph::store::Store,
            | final(registry)@ == old(registry)@.insert(name, s)
            &&& r@ == text_reply("OK"@) ==> final(registry)@.contains_key(name)
            &&& r@ == text_reply("OK"@) || is_error_reply(r@)
        },
{
    load_format(registry, store_name, turtle_data, DataFormat::Turtle)
}

/// Loads RDF/XML data into the store `store_name`, creating it if needed;
/// answers `OK` or an error.
pub fn load_rdf_xml(registry: &mut Registry, store_name: &[u8], rdf_xml_data: &[u8]) -> (r: Vec<
    u8,
>)
    requires
        old(registry).wf(),
    ensures
        final(registry).wf(),
        !valid_utf8(store_name@) ==> invalid_input_reply("Invalid store name: "@, r@)
            && final(registry)@ == old(registry)@,
        valid_utf8(store_name@) ==> {
            let name = decode_utf8(store_name@);
            &&& old(registry)@.contains_key(name) ==> final(registry)@ == old(registry)@
            &&& !old(registry)@.contains_key(name) ==> final(registry)@ == old(registry)@ || exists|
                s: oxigraph::store::Store,
            | final(registry)@ == old(registry)@.insert(name, s)
            &&& r@ == text_reply("OK"@) ==> final(registry)@.contains_key(name)
            &&& r@ == text_reply("OK"@) || is_error_reply(r@)
        },
{
    load_format(registry, store_name, rdf_xml_data, DataFormat::RdfXml)
}

/// Loads N-Triples data into the store `store_name`, creating it if needed;
/// answers `OK` or an error.
pub fn load_ntriples(registry: &mut Registry, store_name: &[u8], ntriples_data: &[u8]) -> (r: Vec<
    u8,
>)
    requires
        old(registry).wf(),
    ensures
        final(registry).wf(),
        !valid_utf8(store_name@) ==> invalid_input_reply("Invalid store name: "@, r@)
            && final(registry)@ == old(registry)@,
        valid_utf8(store_name@) ==> {
            let name = decode_utf8(store_name@);
            &&& old(registry)@.contains_key(name) ==> final(registry)@ == old(registry)@
            &&& !old(registry)@.contains_key(name) ==> final(registry)@ == old(registry)@ || exists|
                s: oxigraph::store::Store,
            | final(registry)@ == old(registry)@.insert(name, s)
            &&& r@ == text_reply("OK"@) ==> final(registry)@.contains_key(name)
            &&& r@ == text_reply("OK"@) || is_error_reply(r@)
        },
{
    load_format(registry, store_name, ntriples_data, DataFormat::NTriples)
}

/// Decodes a store name and a query, and looks the store up; the error reply
/// where one of these fails.
fn open_query<'a>(registry: &'a Registry, store_name: &[u8], sparql_query: &[u8]) -> (r: Result<
    (&'a oxigraph::store::Store, String),
    Vec<u8>,
>)
    requires
        registry.wf(),
    ensures
        r is Err ==> is_error_reply(r->Err_0@),
        !valid_utf8(store_name@) ==> invalid_input_reply("Invalid store name: "@, r->Err_0@),
        valid_utf8(store_name@) && !valid_utf8(sparql_query@) ==> invalid_input_reply(
            "Invalid SPARQL query: "@,
            r->Err_0@,
        ),
        r is Ok <==> valid_utf8(store_name@) && valid_utf8(sparql_query@)
            && registry@.contains_key(decode_utf8(store_name@)),
        r is Ok ==> r->Ok_0.1@ == decode_utf8(sparql_query@),
        valid_utf8(store_name@) && valid_utf8(sparql_query@) && !registry@.contains_key(
            decode_utf8(store_name@),
        ) ==> r->Err_0@ == error_reply(not_found_message(decode_utf8(store_name@))),
{
    let name = match decode(store_name, "Invalid store name: ") {
        Ok(n) => n,
        Err(m) => {
            let r = error_bytes(m.as_str());
            proof {
                let w = choose|w: Seq<char>| m@ == "Invalid store name: "@ + w;
                assert(r@ == error_reply("Invalid store name: "@ + w));
            }
            return Err(r);
        },
    };
    let sparql = match decode(sparql_query, "Invalid SPARQL query: ") {
        Ok(q) => q,
        Err(m) => {
            let r = error_bytes(m.as_str());
            proof {
                let w = choose|w: Seq<char>| m@ == "Invalid SPARQL query: "@ + w;
                assert(r@ == error_reply("Invalid SPARQL query: "@ + w));
            }
            return Err(r);
        },
    };
    match registry.get(name.as_str()) {
        Some(store) => Ok((store, sparql)),
        None => {
            let e = Error::NotFound(name);
            let m = e.message();
            Err(error_bytes(m.as_str()))
        },
    }
}

/// The plugin query's reply for an answer `o`: rows as a JSON array (one
/// object per solution, in order), a truth value as `{"boolean":<b>}`, a graph
/// refused with the entry point to use.
pub open spec fn query_reply(o: Outcome, t: Seq<Entry>, r: Seq<u8>) -> bool {
    match o {
        Outcome::Solutions(sols) => if all_read(sols@) {
            r == text_reply(rows_text(rows_of(sols@, t)))
        } else {
            is_error_reply(r)
        },
        Outcome::Boolean(b) => r == text_reply(boolean_text(b)),
        Outcome::Graph(_) => r == error_reply(shape_message(Shape::Graph)),
    }
}

/// The ASK reply for an answer `o`: `true` or `false`, or the other shape
/// refused with the entry point to use.
pub open spec fn ask_reply_bytes(o: Outcome, r: Seq<u8>) -> bool {
    match o {
        Outcome::Boolean(b) => r == text_reply(
            if b {
                "true"@
            } else {
                "false"@
            },
        ),
        _ => r == error_reply(shape_message(outcome_shape(o))),
    }
}

/// The CONSTRUCT reply for an answer `o`: for a graph, its Turtle text or an
/// error; another shape refused with the entry point to use.
pub open spec fn construct_reply_bytes(o: Outcome, r: Seq<u8>) -> bool {
    match o {
        Outcome::Graph(_) => is_error_reply(r) || exists|text: Seq<char>| r == text_reply(text),
        _ => r == error_reply(shape_message(outcome_shape(o))),
    }
}

/// The reply of a query the engine could not evaluate.
pub open spec fn eval_failure_reply(r: Seq<u8>) -> bool {
    exists|m: Seq<char>| r == error_reply(eval_failure_message(m))
}

/// The name and the query decode and the store is registered.
pub open spec fn query_inputs_ok(registry: &Registry, store_name: Seq<u8>, query: Seq<u8>) -> bool {
    valid_utf8(store_name) && valid_utf8(query) && registry@.contains_key(decode_utf8(store_name))
}

proof fn lemma_eval_failure<T>(res: Result<T, Error>, r: Seq<u8>)
    requires
        eval_failed(res),
        r == error_reply(res->Err_0->ParseFailure_0@),
    ensures
        eval_failure_reply(r),
{
    let m = choose|m: Seq<char>| res->Err_0->ParseFailure_0@ == eval_failure_message(m);
    assert(r == error_reply(eval_failure_message(m)));
}

/// Runs a SELECT query on the store `store_name` and answers a JSON array with
/// one object per solution (an empty array where there is none); an ASK query
/// is answered `{"boolean":<b>}`. Never creates a store.
pub fn query(registry: &Registry, store_name: &[u8], sparql_query: &[u8]) -> (r: Vec<u8>)
    requires
        registry.wf(),
    ensures
        !query_inputs_ok(registry, store_name@, sparql_query@) ==> is_error_reply(r@),
        !valid_utf8(store_name@) ==> invalid_input_reply("Invalid store name: "@, r@),
        valid_utf8(store_name@) && !valid_utf8(sparql_query@) ==> invalid_input_reply(
            "Invalid SPARQL query: "@,
            r@,
        ),
        valid_utf8(store_name@) && valid_utf8(sparql_query@) && !registry@.contains_key(
            decode_utf8(store_name@),
        ) ==> r@ == error_reply(not_found_message(decode_utf8(store_name@))),
        query_inputs_ok(registry, store_name@, sparql_query@) ==> eval_failure_reply(r@) || exists|
            o: Outcome,
        | query_reply(o, prefix_table_of(decode_utf8(sparql_query@)), r@),
{
    let (store, sparql) = match open_query(registry, store_name, sparql_query) {
        Ok(p) => p,
        Err(reply) => {
            return reply;
        },
    };
    let ghost t = prefix_table_of(sparql@);
    let res = query_rows_or_boolean(store, sparql.as_str());
    let r = match &res {
        Ok(Reply::Rows(rows)) => {
            let text = rows_json(rows);
            to_bytes(text.as_str())
        },
        Ok(Reply::Boolean(b)) => {
            let text = boolean_json(*b);
            to_bytes(text.as_str())
        },
        Err(e) => failure(e),
    };
    proof {
        if eval_failed(res) {
            lemma_eval_failure(res, r@);
        } else {
            let o = choose|o: Outcome| rows_or_boolean_result(o, t, res);
            assert(query_reply(o, t, r@));
        }
    }
    r
}

/// Runs a CONSTRUCT query on the store `store_name` and answers the triples
/// as Turtle. Never creates a store.
pub fn query_construct(registry: &Registry, store_name: &[u8], sparql_query: &[u8]) -> (r: Vec<u8>)
    requires
        registry.wf(),
    ensures
        !query_inputs_ok(registry, store_name@, sparql_query@) ==> is_error_reply(r@),
        !valid_utf8(store_name@) ==> invalid_input_reply("Invalid store name: "@, r@),
        valid_utf8(store_name@) && !valid_utf8(sparql_query@) ==> invalid_input_reply(
            "Invalid SPARQL query: "@,
            r@,
        ),
        valid_utf8(store_name@) && valid_utf8(sparql_query@) && !registry@.contains_key(
            decode_utf8(store_name@),
        ) ==> r@ == error_reply(not_found_message(decode_utf8(store_name@))),
        query_inputs_ok(registry, store_name@, sparql_query@) ==> eval_failure_reply(r@) || exists|
            o: Outcome,
        | construct_reply_bytes(o, r@),
{
    let (store, sparql) = match open_query(registry, store_name, sparql_query) {
        Ok(p) => p,
        Err(reply) => {
            return reply;
        },
    };
    let res = crate::dispatch::query_construct(store, sparql.as_str());
    let r = match &res {
        Ok(text) => to_bytes(text.as_str()),
        Err(e) => failure(e),
    };
    proof {
        if eval_failed(res) {
            lemma_eval_failure(res, r@);
        } else {
            let o = choose|o: Outcome| construct_result(o, res);
            if res is Ok {
                assert(r@ == text_reply(res->Ok_0@));
            }
            assert(construct_reply_bytes(o, r@));
        }
    }
    r
}

/// Runs an ASK query on the store `store_name` and answers `true` or
/// `false`. Never creates a store.
pub fn query_ask(registry: &Registry, store_name: &[u8], sparql_query: &[u8]) -> (r: Vec<u8>)
    requires
        registry.wf(),
    ensures
        !query_inputs_ok(registry, store_name@, sparql_query@) ==> is_error_reply(r@),
        !valid_utf8(store_name@) ==> invalid_input_reply("Invalid store name: "@, r@),
        valid_utf8(store_name@) && !valid_utf8(sparql_query@) ==> invalid_input_reply(
            "Invalid SPARQL query: "@,
            r@,
        ),
        valid_utf8(store_name@) && valid_utf8(sparql_query@) && !registry@.contains_key(
            decode_utf8(store_name@),
        ) ==> r@ == error_reply(not_found_message(decode_utf8(store_name@))),
        query_inputs_ok(registry, store_name@, sparql_query@) ==> eval_failure_reply(r@) || exists|
            o: Outcome,
        | ask_reply_bytes(o, r@),
{
    let (store, sparql) = match open_query(registry, store_name, sparql_query) {
        Ok(p) => p,
        Err(reply) => {
            return reply;
        },
    };
    let res = crate::dispatch::query_ask(store, sparql.as_str());
    let r = match &res {
        Ok(true) => to_bytes("true"),
        Ok(false) => to_bytes("false"),
        Err(e) => failure(e),
    };
    proof {
        if eval_failed(res) {
            lemma_eval_failure(res, r@);
        } else {
            let o = choose|o: Outcome| ask_result(o, res);
            assert(ask_reply_bytes(o, r@));
        }
    }
    r
}

/// Removes every triple of the store `store_name`, keeping the name; answers
/// `OK` or an error. Never creates a store.
pub fn clear_store(registry: &Registry, store_name: &[u8]) -> (r: Vec<u8>)
    requires
        registry.wf(),
    ensures
        !valid_utf8(store_name@) ==> invalid_input_reply("Invalid store name: "@, r@),
        valid_utf8(store_name@) && !registry@.contains_key(decode_utf8(store_name@)) ==> r@
            == error_reply(not_found_message(decode_utf8(store_name@))),
        r@ == text_reply("OK"@) || is_error_reply(r@),
{
    let name = match decode(store_name, "Invalid store name: ") {
        Ok(n) => n,
        Err(m) => {
            let r = error_bytes(m.as_str());
            proof {
                let w = choose|w: Seq<char>| m@ == "Invalid store name: "@ + w;
                assert(r@ == error_reply("Invalid store name: "@ + w));
            }
            return r;
        },
    };
    match registry.clear(name.as_str()) {
        Ok(()) => to_bytes("OK"),
        Err(e) => failure(&e),
    }
}

/// The registered names as a JSON array of strings, in the order the stores
/// were created.
pub fn list_stores(registry: &Registry) -> (r: Vec<u8>)
    requires
        registry.wf(),
    ensures
        registry.names().no_duplicates(),
        exists|names: Seq<Seq<char>>|
            r@ == text_reply(names_text(names)) && names.len() == registry.names().len() && forall|
                i: int,
            |
                0 <= i < names.len() ==> #[trigger] names[i] == registry.names()[i],
{
    let names = registry.list();
    let text = names_json(&names);
    let ghost v = names@.map_values(|s: String| s@);
    assert(forall|i: int| 0 <= i < v.len() ==> #[trigger] v[i] == registry.names()[i]);
    to_bytes(text.as_str())
}

/// The number of triples in the store `store_name`, in decimal. Never
/// creates a store.
pub fn get_store_size(registry: &Registry, store_name: &[u8]) -> (r: Vec<u8>)
    requires
        registry.wf(),
    ensures
        !valid_utf8(store_name@) ==> invalid_input_reply("Invalid store name: "@, r@),
        valid_utf8(store_name@) && !registry@.contains_key(decode_utf8(store_name@)) ==> r@
            == error_reply(not_found_message(decode_utf8(store_name@))),
        is_error_reply(r@) || exists|n: nat| r@ == text_reply(nat_text(n)),
{
    let name = match decode(store_name, "Invalid store name: ") {
        Ok(n) => n,
        Err(m) => {
            let r = error_bytes(m.as_str());
            proof {
                let w = choose|w: Seq<char>| m@ == "Invalid store name: "@ + w;
                assert(r@ == error_reply("Invalid store name: "@ + w));
            }
            return r;
        },
    };
    match registry.size(name.as_str()) {
        Ok(n) => {
            let text = count_text(n as u64);
            to_bytes(text.as_str())
        },
        Err(e) => failure(&e),
    }
}

} // verus!
