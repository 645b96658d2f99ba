//! The request-target of a request line: a path with an optional query,
//! split on the `?` character.

use vstd::prelude::*;
use crate::text::{to_chars, trim_chars, string_of, single, split_on, trim, split_by};

verus! {

/// The mathematical value of a [`Uri`]: its components as character
/// sequences.
#[verifier::ext_equal]
pub ghost struct UriModel {
    pub path: Seq<char>,
    pub query: Option<Seq<char>>,
}

/// A request-target, decomposed into its path and, when one is present, its
/// non-empty query component.
#[derive(Debug, Clone, PartialEq, Eq)]
pub struct Uri {
    pub path: String,
    pub query: Option<String>,
}

impl View for Uri {
    type V = UriModel;

    open spec fn view(&self) -> UriModel {
        UriModel {
            path: self.path@,
            query: match self.query {
                Some(q) => Some(q@),
                None => None,
            },
        }
    }
}

/// What parsing a request-target token yields: the token is trimmed and
/// split on `?`; more than one `?`, or an empty part after the `?`, is
/// malformed (`None`).
pub open spec fn parse_uri(s: Seq<char>) -> Option<UriModel> {
    let parts = split_by(trim(s), seq!['?']);
    if parts.len() > 2 {
        None
    } else if parts.len() == 1 {
        Some(UriModel { path: parts[0], query: None })
    } else if parts[1].len() == 0 {
        None
    } else {
        Some(UriModel { path: parts[0], query: Some(parts[1]) })
    }
}

/// When parsing yields a query component at all, that component is
/// non-empty: an explicit empty query after `?` is rejected rather than
/// normalized to "no query".
pub proof fn lemma_query_nonempty(s: Seq<char>, u: UriModel)
    requires
        parse_uri(s) == Some(u),
    ensures
        u.query is Some ==> u.query->0.len() > 0,
{
}

impl Uri {
    /// Parses a request-target token into a `Uri`, exactly as
    /// [`parse_uri`] describes; the error is a single opaque kind.
    pub fn from_str(s: &str) -> (r: Result<Uri, ()>)
        ensures
            match r {
                Ok(u) => parse_uri(s@) == Some(u@),
                Err(_) => parse_uri(s@) is None,
            },
    {
        let chars = to_chars(s);
        let t = trim_chars(&chars);
        let sep = single('?');
        let parts = split_on(&t, &sep);
        proof {
            assert(parts.deep_view() == split_by(trim(s@), seq!['?']));
        }
        if parts.len() > 2 {
            return Err(());
        }
        if parts.len() == 1 {
            let path = string_of(&parts[0]);
            proof {
                assert(parts@[0].deep_view() =~= parts@[0]@);
            }
            return Ok(Uri { path, query: None });
        }
        if parts[1].len() == 0 {
            proof {
                assert(parts@[1].deep_view() =~= parts@[1]@);
            }
            return Err(());
        }
        let path = string_of(&parts[0]);
        let query = string_of(&parts[1]);
        proof {
            assert(parts@[0].deep_view() =~= parts@[0]@);
            assert(parts@[1].deep_view() =~= parts@[1]@);
        }
        Ok(Uri { path, query: Some(query) })
    }
}

} // verus!
