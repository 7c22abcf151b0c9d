//! The closed set of HTTP request methods and the case-insensitive mapping
//! from a start-line token to a method.
use crate::strutil::{eq_upper, upper, upper_char};
use vstd::prelude::*;

verus! {

/// The closed enumeration of HTTP/1.1 request methods.  An unrecognised
/// start-line token is a parse error, not a variant.
#[derive(Clone, Copy, PartialEq, Eq, Structural, Debug)]
pub enum HttpMethod {
    GET,
    HEAD,
    POST,
    PUT,
    DELETE,
    CONNECT,
    OPTIONS,
    TRACE,
    PATCH,
}

/// The method named by `s`, compared case-insensitively, if any.
pub open spec fn method_of(s: Seq<char>) -> Option<HttpMethod> {
    if upper(s) == "GET"@ {
        Some(HttpMethod::GET)
    } else if upper(s) == "HEAD"@ {
        Some(HttpMethod::HEAD)
    } else if upper(s) == "POST"@ {
        Some(HttpMethod::POST)
    } else if upper(s) == "PUT"@ {
        Some(HttpMethod::PUT)
    } else if upper(s) == "DELETE"@ {
        Some(HttpMethod::DELETE)
    } else if upper(s) == "CONNECT"@ {
        Some(HttpMethod::CONNECT)
    } else if upper(s) == "OPTIONS"@ {
        Some(HttpMethod::OPTIONS)
    } else if upper(s) == "TRACE"@ {
        Some(HttpMethod::TRACE)
    } else if upper(s) == "PATCH"@ {
        Some(HttpMethod::PATCH)
    } else {
        None
    }
}

proof fn lemma_upper_no_space(m: Seq<char>, u: Seq<char>)
    requires
        upper(m) == u,
        forall|i: int| 0 <= i < u.len() ==> u[i] != ' ',
    ensures
        m.len() == u.len(),
        forall|i: int| 0 <= i < m.len() ==> m[i] != ' ',
{
    assert forall|i: int| 0 <= i < m.len() implies m[i] != ' ' by {
        assert(upper(m)[i] == upper_char(m[i]));
        assert(upper_char(' ') == ' ');
    };
}

/// A token that names a method of the closed set is non-empty and holds
/// no space.
pub proof fn lemma_method_token_clean(m: Seq<char>)
    requires
        method_of(m) is Some,
    ensures
        m.len() > 0,
        forall|i: int| 0 <= i < m.len() ==> m[i] != ' ',
{
    if upper(m) == "GET"@ {
        reveal_strlit("GET");
        assert("GET"@ =~= seq!['G', 'E', 'T']);
        lemma_upper_no_space(m, "GET"@);
    } else if upper(m) == "HEAD"@ {
        reveal_strlit("HEAD");
        assert("HEAD"@ =~= seq!['H', 'E', 'A', 'D']);
        lemma_upper_no_space(m, "HEAD"@);
    } else if upper(m) == "POST"@ {
        reveal_strlit("POST");
        assert("POST"@ =~= seq!['P', 'O', 'S', 'T']);
        lemma_upper_no_space(m, "POST"@);
    } else if upper(m) == "PUT"@ {
        reveal_strlit("PUT");
        assert("PUT"@ =~= seq!['P', 'U', 'T']);
        lemma_upper_no_space(m, "PUT"@);
    } else if upper(m) == "DELETE"@ {
        reveal_strlit("DELETE");
        assert("DELETE"@ =~= seq!['D', 'E', 'L', 'E', 'T', 'E']);
        lemma_upper_no_space(m, "DELETE"@);
    } else if upper(m) == "CONNECT"@ {
        reveal_strlit("CONNECT");
        assert("CONNECT"@ =~= seq!['C', 'O', 'N', 'N', 'E', 'C', 'T']);
        lemma_upper_no_space(m, "CONNECT"@);
    } else if upper(m) == "OPTIONS"@ {
        reveal_strlit("OPTIONS");
        assert("OPTIONS"@ =~= seq!['O', 'P', 'T', 'I', 'O', 'N', 'S']);
        lemma_upper_no_space(m, "OPTIONS"@);
    } else if upper(m) == "TRACE"@ {
        reveal_strlit("TRACE");
        assert("TRACE"@ =~= seq!['T', 'R', 'A', 'C', 'E']);
        lemma_upper_no_space(m, "TRACE"@);
    } else {
        reveal_strlit("PATCH");
        assert("PATCH"@ =~= seq!['P', 'A', 'T', 'C', 'H']);
        lemma_upper_no_space(m, "PATCH"@);
    }
}

/// Maps a start-line method token to its `HttpMethod`, case-insensitively.
/// Returns the error message of the original parser when the token names
/// no method of the closed set.
pub fn string_to_http_method(method: &String) -> (r: Result<HttpMethod, String>)
    ensures
        match r {
            Ok(m) => method_of(method@) == Some(m),
            Err(e) => method_of(method@) is None && e@ == "Invalid request method"@,
        },
{
    let s = method.as_str();
    if eq_upper(s, "GET") {
        Ok(HttpMethod::GET)
    } else if eq_upper(s, "HEAD") {
        Ok(HttpMethod::HEAD)
    } else if eq_upper(s, "POST") {
        Ok(HttpMethod::POST)
    } else if eq_upper(s, "PUT") {
        Ok(HttpMethod::PUT)
    } else if eq_upper(s, "DELETE") {
        Ok(HttpMethod::DELETE)
    } else if eq_upper(s, "CONNECT") {
        Ok(HttpMethod::CONNECT)
    } else if eq_upper(s, "OPTIONS") {
        Ok(HttpMethod::OPTIONS)
    } else if eq_upper(s, "TRACE") {
        Ok(HttpMethod::TRACE)
    } else if eq_upper(s, "PATCH") {
        Ok(HttpMethod::PATCH)
    } else {
        Err(String::from_str("Invalid request method"))
    }
}

} // verus!
