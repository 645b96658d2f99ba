//! General laws of the parser, stated over the same spec functions that the
//! executable functions' contracts use, and proved once for all inputs.

use vstd::prelude::*;
use crate::text::{
    trim, lower, split_by, match_at, dec_parses, dec_value, lemma_trim_id, lemma_lower_char_space,
    lemma_split_by_whole,
};
use crate::uri::{UriModel, parse_uri};
use crate::parser::{
    Verb, HeaderModel, HttpParseError, HttpRequestModel, RequestLineModel, verb_of, verb_name,
    verb_display, header_line_spec, headers_spec, parse_request_spec,
};

verus! {

/// A token classifies as the verb `v` exactly when, trimmed and
/// lower-cased, it equals `v`'s name; it classifies as no verb at all
/// exactly when it matches no verb's name.
pub proof fn lemma_verb_classification(t: Seq<char>, v: Verb)
    ensures
        verb_of(t) == Some(v) <==> lower(trim(t)) == verb_name(v),
        (verb_of(t) is None) <==> !(exists|w: Verb| lower(trim(t)) == #[trigger] verb_name(w)),
{
    reveal_strlit("get");
    reveal_strlit("post");
    reveal_strlit("put");
    reveal_strlit("patch");
    reveal_strlit("delete");
    assert("get"@.len() == 3 && "post"@.len() == 4 && "put"@.len() == 3 && "patch"@.len() == 5
        && "delete"@.len() == 6);
    assert("get"@[0] == 'g' && "put"@[0] == 'p');
    let k = lower(trim(t));
    if verb_of(t) is Some {
        let w = verb_of(t)->0;
        assert(k == verb_name(w));
    }
}

/// A verb token in any letter-casing — any token whose lower-casing is a
/// verb's name — classifies as that verb, with no trimming needed.
pub proof fn lemma_verb_any_casing(u: Seq<char>, v: Verb)
    requires
        lower(u) == verb_name(v),
    ensures
        verb_of(u) == Some(v),
{
    reveal_strlit("get");
    reveal_strlit("post");
    reveal_strlit("put");
    reveal_strlit("patch");
    reveal_strlit("delete");
    assert(u.len() == verb_name(v).len());
    if u.len() > 0 {
        assert(lower(u)[0] == crate::text::lower_char(u[0]));
        assert(lower(u)[u.len() - 1] == crate::text::lower_char(u[u.len() - 1]));
        lemma_lower_char_space(u[0]);
        lemma_lower_char_space(u[u.len() - 1]);
    }
    lemma_trim_id(u);
    lemma_verb_classification(u, v);
}

/// Round trip: a verb's display string, parsed back case-insensitively,
/// yields the same verb.
pub proof fn lemma_verb_round_trip(v: Verb)
    ensures
        verb_of(verb_display(v)) == Some(v),
{
    reveal_strlit("get");
    reveal_strlit("post");
    reveal_strlit("put");
    reveal_strlit("patch");
    reveal_strlit("delete");
    reveal_strlit("GET");
    reveal_strlit("POST");
    reveal_strlit("PUT");
    reveal_strlit("PATCH");
    reveal_strlit("DELETE");
    assert(lower(verb_display(v)) =~= verb_name(v));
    lemma_verb_any_casing(verb_display(v), v);
}

/// A well-formed request line standing alone — text without any `"\r\n"`,
/// with exactly three space-separated tokens, a recognized verb and a
/// well-formed target — parses successfully, with an empty header sequence
/// and the normalized protocol token.
pub proof fn lemma_request_line_only(s: Seq<char>, v: Verb, u: UriModel)
    requires
        forall|j: int| !match_at(s, seq!['\r', '\n'], j),
        split_by(s, seq![' ']).len() == 3,
        verb_of(split_by(s, seq![' '])[0]) == Some(v),
        parse_uri(split_by(s, seq![' '])[1]) == Some(u),
    ensures
        parse_request_spec(s) == Ok::<HttpRequestModel, HttpParseError>(
            (HttpRequestModel {
                request_line: (RequestLineModel {
                    verb: v,
                    protocol: lower(trim(split_by(s, seq![' '])[2])),
                    url: u,
                }),
                headers: Seq::<HeaderModel>::empty(),
            }),
        ),
{
    lemma_split_by_whole(s, seq!['\r', '\n']);
    let lines = split_by(s, seq!['\r', '\n']);
    assert(lines == seq![s]);
    assert(lines.skip(1) =~= Seq::<Seq<char>>::empty());
}

/// For a header block in which every line splits on `:` into exactly a name
/// and a value, and the value of every `content-length` line is a decimal
/// numeral in range, classification succeeds, yields exactly one header per
/// line, and classifies each line independently.
pub proof fn lemma_header_count(lines: Seq<Seq<char>>)
    requires
        forall|i: int|
            0 <= i < lines.len() ==> #[trigger] split_by(lines[i], seq![':']).len() == 2,
        forall|i: int|
            0 <= i < lines.len() ==> (lower(trim(#[trigger] split_by(lines[i], seq![':'])[0]))
                == "content-length"@ ==> dec_parses(trim(split_by(lines[i], seq![':'])[1]))),
    ensures
        headers_spec(lines) is Ok,
        headers_spec(lines)->Ok_0.len() == lines.len(),
        forall|i: int|
            0 <= i < lines.len() ==> #[trigger] header_line_spec(lines[i]) is Ok
                && headers_spec(lines)->Ok_0[i] == header_line_spec(lines[i])->Ok_0,
    decreases lines.len(),
{
    if lines.len() > 0 {
        assert(header_line_spec(lines[0]) is Ok);
        let tail = lines.skip(1);
        assert forall|i: int| 0 <= i < tail.len() implies #[trigger] split_by(
            tail[i],
            seq![':'],
        ).len() == 2 && (lower(trim(split_by(tail[i], seq![':'])[0])) == "content-length"@
            ==> dec_parses(trim(split_by(tail[i], seq![':'])[1]))) by {
            assert(tail[i] == lines[i + 1]);
        }
        lemma_header_count(tail);
        assert forall|i: int| 0 <= i < lines.len() implies #[trigger] header_line_spec(lines[i])
            is Ok && headers_spec(lines)->Ok_0[i] == header_line_spec(lines[i])->Ok_0 by {
            if i > 0 {
                assert(tail[i - 1] == lines[i]);
                assert(headers_spec(tail)->Ok_0[i - 1] == header_line_spec(tail[i - 1])->Ok_0);
            }
        }
    }
}

/// A header line whose name, lower-cased, matches no well-known name is
/// classified as `OtherHeader`, holding the trimmed name in its original
/// casing beside the trimmed value.
pub proof fn lemma_unknown_header(line: Seq<char>)
    requires
        split_by(line, seq![':']).len() == 2,
        lower(trim(split_by(line, seq![':'])[0])) != "host"@,
        lower(trim(split_by(line, seq![':'])[0])) != "accept"@,
        lower(trim(split_by(line, seq![':'])[0])) != "authorization"@,
        lower(trim(split_by(line, seq![':'])[0])) != "referer"@,
        lower(trim(split_by(line, seq![':'])[0])) != "user-agent"@,
        lower(trim(split_by(line, seq![':'])[0])) != "content-type"@,
        lower(trim(split_by(line, seq![':'])[0])) != "content-length"@,
    ensures
        header_line_spec(line) == Ok::<HeaderModel, HttpParseError>(
            HeaderModel::OtherHeader(
                trim(split_by(line, seq![':'])[0]),
                trim(split_by(line, seq![':'])[1]),
            ),
        ),
{
}

/// A `content-length` line succeeds exactly when its trimmed value is a
/// decimal numeral whose value is representable, and then carries that
/// value; any other value fails the whole parse with
/// `NonNumericContentLength`.
pub proof fn lemma_content_length(line: Seq<char>)
    requires
        split_by(line, seq![':']).len() == 2,
        lower(trim(split_by(line, seq![':'])[0])) == "content-length"@,
    ensures
        dec_parses(trim(split_by(line, seq![':'])[1])) ==> header_line_spec(line)
            == Ok::<HeaderModel, HttpParseError>(
            HeaderModel::ContentLength(dec_value(trim(split_by(line, seq![':'])[1]))),
        ),
        !dec_parses(trim(split_by(line, seq![':'])[1])) ==> header_line_spec(line)
            == Err::<HeaderModel, HttpParseError>(HttpParseError::NonNumericContentLength),
{
    reveal_strlit("host");
    reveal_strlit("accept");
    reveal_strlit("authorization");
    reveal_strlit("referer");
    reveal_strlit("user-agent");
    reveal_strlit("content-type");
    reveal_strlit("content-length");
    assert("host"@.len() == 4 && "accept"@.len() == 6 && "authorization"@.len() == 13
        && "referer"@.len() == 7 && "user-agent"@.len() == 10 && "content-type"@.len() == 12
        && "content-length"@.len() == 14);
}

} // verus!


