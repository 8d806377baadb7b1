//! The request methods a route can be declared for.
use vstd::prelude::*;

verus! {

/// One of the seven methods of a route declaration.
#[derive(Clone, Copy, Debug, PartialEq, Eq, Structural)]
pub enum Method {
    Get,
    Post,
    Put,
    Patch,
    Delete,
    Head,
    Options,
}

/// The method that a token names, if it names one. Tokens are taken
/// verbatim: upper case, nothing around them.
pub open spec fn method_of(token: Seq<char>) -> Option<Method> {
    if token == "GET"@ {
        Some(Method::Get)
    } else if token == "POST"@ {
        Some(Method::Post)
    } else if token == "PUT"@ {
        Some(Method::Put)
    } else if token == "PATCH"@ {
        Some(Method::Patch)
    } else if token == "DELETE"@ {
        Some(Method::Delete)
    } else if token == "HEAD"@ {
        Some(Method::Head)
    } else if token == "OPTIONS"@ {
        Some(Method::Options)
    } else {
        None
    }
}

impl Method {
    /// The token that names the method.
    pub open spec fn token(self) -> Seq<char> {
        match self {
            Method::Get => "GET"@,
            Method::Post => "POST"@,
            Method::Put => "PUT"@,
            Method::Patch => "PATCH"@,
            Method::Delete => "DELETE"@,
            Method::Head => "HEAD"@,
            Method::Options => "OPTIONS"@,
        }
    }

    /// The token that names the method.
    pub fn as_str(self) -> (token: &'static str)
        ensures
            token@ == self.token(),
    {
        match self {
            Method::Get => "GET",
            Method::Post => "POST",
            Method::Put => "PUT",
            Method::Patch => "PATCH",
            Method::Delete => "DELETE",
            Method::Head => "HEAD",
            Method::Options => "OPTIONS",
        }
    }

    /// Reads a method token. A token that names no method gives `None`.
    pub fn parse(token: &str) -> (method: Option<Method>)
        ensures
            method == method_of(token@),
    {
        let token = token.to_owned();
        if token == "GET".to_owned() {
            Some(Method::Get)
        } else if token == "POST".to_owned() {
            Some(Method::Post)
        } else if token == "PUT".to_owned() {
            Some(Method::Put)
        } else if token == "PATCH".to_owned() {
            Some(Method::Patch)
        } else if token == "DELETE".to_owned() {
            Some(Method::Delete)
        } else if token == "HEAD".to_owned() {
            Some(Method::Head)
        } else if token == "OPTIONS".to_owned() {
            Some(Method::Options)
        } else {
            None
        }
    }

    /// Reads a method token as a declaration site does: a token that names
    /// no method stands for `GET`.
    pub fn from_token(token: &str) -> (method: Method)
        ensures
            method == match method_of(token@) {
                Some(named) => named,
                None => Method::Get,
            },
    {
        match Method::parse(token) {
            Some(named) => named,
            None => Method::Get,
        }
    }
}

/// Each method is read back from its own token, so no two methods share one.
pub proof fn lemma_token_names_its_method(method: Method)
    ensures
        method_of(method.token()) == Some(method),
{
    reveal_strlit("GET");
    reveal_strlit("POST");
    reveal_strlit("PUT");
    reveal_strlit("PATCH");
    reveal_strlit("DELETE");
    reveal_strlit("HEAD");
    reveal_strlit("OPTIONS");
    assert("GET"@.len() == 3 && "PUT"@.len() == 3 && "GET"@[0] != "PUT"@[0]);
    assert("POST"@.len() == 4 && "HEAD"@.len() == 4 && "POST"@[0] != "HEAD"@[0]);
    assert("PATCH"@.len() == 5);
    assert("DELETE"@.len() == 6);
    assert("OPTIONS"@.len() == 7);
}

/// A token that names a method is that method's own token.
pub proof fn lemma_token_of_named(token: Seq<char>)
    ensures
        method_of(token) matches Some(method) ==> method.token() == token,
{
}

} // verus!
