//! The request adaptor: from what the transport extracted of a request to
//! the three JSON values a handler is called with, and back to a response.
use crate::json::{json_members, json_null, json_object, json_shape, json_text};
use crate::json::{members_insert, members_new, no_members, JsonMembers, JsonShape, JsonValue};
use crate::registry::RouteRegistry;
use crate::response::{not_found, not_found_message, ApiResponse};
use vstd::prelude::*;

verus! {

/// The members of the JSON object built from string pairs: one member per
/// distinct key, holding as a JSON string the value of the last pair that
/// carries the key.
pub open spec fn string_members(pairs: Seq<(String, String)>) -> Map<Seq<char>, JsonShape>
    decreases pairs.len(),
{
    if pairs.len() == 0 {
        no_members()
    } else {
        string_members(pairs.drop_last()).insert(
            pairs.last().0@,
            JsonShape::Text(pairs.last().1@),
        )
    }
}

/// Whether `(path, query, payload)` is the normalized form of a request with
/// the given path parameters, query parameters and optional body: two
/// objects of strings, and the body itself or null where there is none.
pub open spec fn normalized(
    path_params: Seq<(String, String)>,
    query_params: Seq<(String, String)>,
    body: Option<JsonValue>,
    path: JsonValue,
    query: JsonValue,
    payload: JsonValue,
) -> bool {
    &&& json_shape(path) == JsonShape::Object(string_members(path_params))
    &&& json_shape(query) == JsonShape::Object(string_members(query_params))
    &&& match body {
        Some(value) => payload == value,
        None => json_shape(payload) == JsonShape::Null,
    }
}

/// The keys of the object are those of the pairs.
pub proof fn lemma_string_members_keys(pairs: Seq<(String, String)>, key: Seq<char>)
    ensures
        string_members(pairs).contains_key(key) <==> exists|i: int|
            0 <= i < pairs.len() && #[trigger] pairs[i].0@ == key,
    decreases pairs.len(),
{
    if pairs.len() > 0 {
        let front = pairs.drop_last();
        lemma_string_members_keys(front, key);
        if string_members(pairs).contains_key(key) {
            if pairs.last().0@ == key {
                assert(pairs[pairs.len() - 1].0@ == key);
            } else {
                let i = choose|i: int| 0 <= i < front.len() && #[trigger] front[i].0@ == key;
                assert(pairs[i].0@ == key);
            }
        }
        if exists|i: int| 0 <= i < pairs.len() && #[trigger] pairs[i].0@ == key {
            let i = choose|i: int| 0 <= i < pairs.len() && #[trigger] pairs[i].0@ == key;
            if i < front.len() {
                assert(front[i].0@ == key);
            }
        }
    }
}

/// Where a key repeats, the last pair decides: the member under the key of
/// pair `i` is the text of pair `i`, unless a later pair has the same key.
pub proof fn lemma_string_members_last_wins(pairs: Seq<(String, String)>, i: int)
    requires
        0 <= i < pairs.len(),
        forall|j: int| i < j < pairs.len() ==> pairs[j].0@ != pairs[i].0@,
    ensures
        string_members(pairs).contains_key(pairs[i].0@),
        string_members(pairs)[pairs[i].0@] == JsonShape::Text(pairs[i].1@),
    decreases pairs.len(),
{
    if i < pairs.len() - 1 {
        let front = pairs.drop_last();
        assert(forall|j: int| i < j < front.len() ==> front[j] == pairs[j]);
        lemma_string_members_last_wins(front, i);
    }
}

/// No member is anything but a JSON string.
pub proof fn lemma_string_members_are_text(pairs: Seq<(String, String)>, key: Seq<char>)
    requires
        string_members(pairs).contains_key(key),
    ensures
        string_members(pairs)[key] is Text,
    decreases pairs.len(),
{
    if pairs.len() > 0 && pairs.last().0@ != key {
        lemma_string_members_are_text(pairs.drop_last(), key);
    }
}

/// What a handler is called with, whatever the request: the path and the
/// query arrive as objects whose members are all JSON strings, never numbers
/// or booleans, however the text looks; the payload is the request's body
/// unchanged, or null where the request had none.
pub proof fn lemma_handler_arguments(
    path_params: Seq<(String, String)>,
    query_params: Seq<(String, String)>,
    body: Option<JsonValue>,
    path: JsonValue,
    query: JsonValue,
    payload: JsonValue,
)
    requires
        normalized(path_params, query_params, body, path, query, payload),
    ensures
        json_shape(path) == JsonShape::Object(string_members(path_params)),
        json_shape(query) == JsonShape::Object(string_members(query_params)),
        forall|key: Seq<char>| #[trigger]
            string_members(path_params).contains_key(key) ==> string_members(
                path_params,
            )[key] is Text,
        forall|key: Seq<char>| #[trigger]
            string_members(query_params).contains_key(key) ==> string_members(
                query_params,
            )[key] is Text,
        body matches Some(value) ==> payload == value,
        body is None ==> json_shape(payload) == JsonShape::Null,
{
    assert forall|key: Seq<char>| #[trigger]
        string_members(path_params).contains_key(key) implies string_members(
        path_params,
    )[key] is Text by {
        lemma_string_members_are_text(path_params, key);
    }
    assert forall|key: Seq<char>| #[trigger]
        string_members(query_params).contains_key(key) implies string_members(
        query_params,
    )[key] is Text by {
        lemma_string_members_are_text(query_params, key);
    }
}

/// Builds the JSON object of a list of string pairs. Each value stays a
/// string; of pairs with one key the last is kept.
pub fn string_object(pairs: &Vec<(String, String)>) -> (object: JsonValue)
    ensures
        json_shape(object) == JsonShape::Object(string_members(pairs@)),
{
    let mut members: JsonMembers = members_new();
    let mut done: usize = 0;
    while done < pairs.len()
        invariant
            done <= pairs.len(),
            json_members(members) == string_members(pairs@.take(done as int)),
        decreases pairs.len() - done,
    {
        let key: String = pairs[done].0.clone();
        let text: String = pairs[done].1.clone();
        proof {
            let next = pairs@.take(done + 1);
            assert(next.drop_last() == pairs@.take(done as int));
            assert(next.last() == pairs@[done as int]);
        }
        let _ = members_insert(&mut members, key, json_text(text));
        done = done + 1;
    }
    proof {
        assert(pairs@.take(done as int) == pairs@);
    }
    json_object(members)
}

/// The payload a handler is given: the request body, or JSON null where the
/// request had none.
pub fn body_or_null(body: Option<JsonValue>) -> (payload: JsonValue)
    ensures
        match body {
            Some(value) => payload == value,
            None => json_shape(payload) == JsonShape::Null,
        },
{
    match body {
        Some(value) => value,
        None => json_null(),
    }
}

/// Whether `response` is a value that `handler` may return for the request,
/// called on its normalized form.
pub open spec fn answers<H: Fn(JsonValue, JsonValue, JsonValue) -> JsonValue>(
    handler: H,
    path_params: Seq<(String, String)>,
    query_params: Seq<(String, String)>,
    body: Option<JsonValue>,
    response: JsonValue,
) -> bool {
    exists|path: JsonValue, query: JsonValue, payload: JsonValue|
        normalized(path_params, query_params, body, path, query, payload) && handler.ensures(
            (path, query, payload),
            response,
        )
}

/// Whether `handler` accepts the request in its normalized form.
pub open spec fn accepts<H: Fn(JsonValue, JsonValue, JsonValue) -> JsonValue>(
    handler: H,
    path_params: Seq<(String, String)>,
    query_params: Seq<(String, String)>,
    body: Option<JsonValue>,
) -> bool {
    forall|path: JsonValue, query: JsonValue, payload: JsonValue|
        normalized(path_params, query_params, body, path, query, payload) ==> handler.requires(
            (path, query, payload),
        )
}

/// Answers one request with the handler bound to its route: normalizes the
/// three argument groups, calls the handler with them in the order path,
/// query, payload, and returns what the handler returned, unwrapped.
///
/// Requests are answered concurrently, so a handler has to be shareable
/// between threads; nothing here serializes the calls.
pub fn respond<H: Fn(JsonValue, JsonValue, JsonValue) -> JsonValue + Send + Sync>(
    handler: &H,
    path_params: &Vec<(String, String)>,
    query_params: &Vec<(String, String)>,
    body: Option<JsonValue>,
) -> (response: JsonValue)
    requires
        accepts(*handler, path_params@, query_params@, body),
    ensures
        answers(*handler, path_params@, query_params@, body, response),
{
    let path = string_object(path_params);
    let query = string_object(query_params);
    let payload = body_or_null(body);
    assert(normalized(path_params@, query_params@, body, path, query, payload));
    handler(path, query, payload)
}

/// What a request comes to: the raw value that the route's handler
/// returned, or the envelope that says no route matched.
pub enum Outcome {
    Handled(JsonValue),
    NotFound(ApiResponse<String>),
}

/// Answers a request from the table. `route` is what the transport resolved
/// the request to: the template of the route it matched, or the request's
/// own path where it matched none. A route of the table is answered by its
/// handler, with nothing wrapped around the handler's value; any other gets
/// the not-found envelope that names it.
pub fn dispatch<H: Fn(JsonValue, JsonValue, JsonValue) -> JsonValue + Send + Sync>(
    registry: &RouteRegistry<H>,
    method: &str,
    route: &str,
    path_params: &Vec<(String, String)>,
    query_params: &Vec<(String, String)>,
    body: Option<JsonValue>,
) -> (outcome: Outcome)
    requires
        registry.wf(),
        registry@.contains_key((method@, route@)) ==> accepts(
            registry@[(method@, route@)],
            path_params@,
            query_params@,
            body,
        ),
    ensures
        match outcome {
            Outcome::Handled(response) => {
                &&& registry@.contains_key((method@, route@))
                &&& answers(
                    registry@[(method@, route@)],
                    path_params@,
                    query_params@,
                    body,
                    response,
                )
            },
            Outcome::NotFound(envelope) => {
                &&& !registry@.contains_key((method@, route@))
                &&& !envelope.success
                &&& envelope.data is None
                &&& envelope.message@ == not_found_message(route@)
            },
        },
{
    match registry.lookup(method, route) {
        Some(handler) => Outcome::Handled(respond(handler, path_params, query_params, body)),
        None => Outcome::NotFound(not_found(route)),
    }
}

} // verus!
