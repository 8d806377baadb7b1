//! The envelope of the responses that the dispatch layer makes up itself.
//! What a handler returns is never wrapped in it.
use crate::json::{json_bool, json_null, json_object, json_shape, json_text, members_insert};
use crate::json::{members_new, no_members, JsonMembers, JsonShape, JsonValue};
use vstd::prelude::*;
use vstd::string::StringExecFns;

verus! {

/// The envelope of an error response.
#[derive(Clone, Debug)]
pub struct ApiResponse<T> {
    pub success: bool,
    pub data: Option<T>,
    pub message: String,
}

/// The message of the response to a request that no route matches.
pub open spec fn not_found_message(path: Seq<char>) -> Seq<char> {
    "Route "@ + path + " not found"@
}

/// The members of an envelope as a JSON object: `success`, `data` and
/// `message`, with `data` null where the envelope carries none.
pub open spec fn envelope_members(success: bool, data: Option<Seq<char>>, message: Seq<char>) -> Map<
    Seq<char>,
    JsonShape,
> {
    no_members().insert("success"@, JsonShape::Bool(success)).insert(
        "data"@,
        match data {
            Some(text) => JsonShape::Text(text),
            None => JsonShape::Null,
        },
    ).insert("message"@, JsonShape::Text(message))
}

/// The three member names of an envelope differ, so the object has three
/// members.
pub proof fn lemma_envelope_keys_differ()
    ensures
        "success"@ != "data"@,
        "success"@ != "message"@,
        "data"@ != "message"@,
{
    reveal_strlit("success");
    reveal_strlit("data");
    reveal_strlit("message");
    assert("success"@.len() == 7);
    assert("data"@.len() == 4);
    assert("message"@[0] == 'm');
    assert("success"@[0] == 's');
}

/// The envelope that answers a request for a path no route matches.
pub fn not_found(path: &str) -> (response: ApiResponse<String>)
    ensures
        !response.success,
        response.data is None,
        response.message@ == not_found_message(path@),
{
    let message = String::from_str("Route ").concat(path).concat(" not found");
    ApiResponse { success: false, data: None, message }
}

impl ApiResponse<String> {
    /// The envelope's members in the model of JSON objects.
    pub open spec fn members(&self) -> Map<Seq<char>, JsonShape> {
        envelope_members(
            self.success,
            match self.data {
                Some(text) => Some(text@),
                None => None,
            },
            self.message@,
        )
    }

    /// The envelope as a JSON object.
    pub fn to_json(&self) -> (object: JsonValue)
        ensures
            json_shape(object) == JsonShape::Object(self.members()),
    {
        let mut members: JsonMembers = members_new();
        let _ = members_insert(&mut members, String::from_str("success"), json_bool(self.success));
        let data = match &self.data {
            Some(text) => json_text(text.clone()),
            None => json_null(),
        };
        let _ = members_insert(&mut members, String::from_str("data"), data);
        let _ = members_insert(
            &mut members,
            String::from_str("message"),
            json_text(self.message.clone()),
        );
        json_object(members)
    }
}

/// The body of the response to a request that no route matches: the
/// envelope `{success: false, data: null, message: "Route <path> not found"}`.
pub fn not_found_body(path: &str) -> (body: JsonValue)
    ensures
        json_shape(body) == JsonShape::Object(
            envelope_members(false, None, not_found_message(path@)),
        ),
{
    not_found(path).to_json()
}

} // verus!
