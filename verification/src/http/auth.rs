//! Bearer tokens. Where a token is set, every request has to carry it, but for those
//! to the health and info endpoints.

use vstd::prelude::*;
use vstd::string::*;
use vstd::utf8::*;

use crate::json;
use crate::json::Json;
use crate::text::chars;
use crate::text::search;

verus! {

/// How a request without the right token is answered.
#[derive(Debug)]
pub struct Refusal {
    pub status: u16,
    /// The value of the `WWW-Authenticate` header.
    pub www_authenticate: &'static str,
    pub body: Json,
}

/// A path that needs no token.
pub open spec fn is_open(path: Seq<char>) -> bool {
    path == "/healthz"@ || path == "/info"@
}

/// `s` without the prefix `p`, where it has it.
pub open spec fn without_prefix(s: Seq<char>, p: Seq<char>) -> Option<Seq<char>> {
    if search::starts_with(s, p) {
        Some(s.skip(p.len() as int))
    } else {
        None
    }
}

/// The token in the `Authorization` header of a request; empty where there is none.
pub open spec fn provided_token(header: Seq<char>) -> Seq<char> {
    match (without_prefix(header, "Bearer "@), without_prefix(header, "bearer "@)) {
        (Some(t), _) => t,
        (None, Some(t)) => t,
        (None, None) => Seq::empty(),
    }
}

/// The header of a request, where it was sent and is text.
pub open spec fn header_text(authorization: Option<&str>) -> Seq<char> {
    match authorization {
        Some(s) => s@,
        None => Seq::empty(),
    }
}

/// The request is let in.
pub open spec fn is_admitted(
    expected: Seq<char>,
    path: Seq<char>,
    authorization: Seq<char>,
) -> bool {
    is_open(path) || provided_token(authorization) == expected
}

/// What a refused request is told.
pub open spec fn refusal_body() -> json::JsonModel {
    json::JsonModel::Object(
        Map::empty().insert("error"@, json::JsonModel::Text("unauthorized"@)).insert(
            "message"@,
            json::JsonModel::Text("Authorization: Bearer <token> required"@),
        ),
    )
}

fn strip(s: &str, p: &str) -> (r: Option<String>)
    ensures
        chars::opt_view(r) == without_prefix(s@, p@),
{
    if search::text_starts_with(s, p) {
        let v: Vec<char> = chars::chars_of(s);
        let q: Vec<char> = chars::chars_of(p);
        let t: String = chars::string_of(v.as_slice(), q.len(), v.len());
        assert(t@ =~= s@.skip(p@.len() as int));
        Some(t)
    } else {
        None
    }
}

fn token_of(header: &str) -> (r: String)
    ensures
        r@ == provided_token(header@),
{
    match strip(header, "Bearer ") {
        Some(t) => t,
        None => match strip(header, "bearer ") {
            Some(t) => t,
            None => {
                let t = String::new();
                assert(t@ =~= Seq::empty());
                t
            },
        },
    }
}

/// Lets a request in, or answers it.
pub fn require_bearer(expected: &str, path: &str, authorization: Option<&str>) -> (r: Option<
    Refusal,
>)
    ensures
        r is None == is_admitted(expected@, path@, header_text(authorization)),
        r matches Some(f) ==> {
            &&& f.status == 401
            &&& f.www_authenticate@ == "Bearer realm=\"postcrate\""@
            &&& f.body@ == refusal_body()
        },
{
    if chars::str_eq(path, "/healthz") || chars::str_eq(path, "/info") {
        return None;
    }
    let header: &str = match authorization {
        Some(s) => s,
        None => {
            proof {
                reveal_strlit("");
                assert(""@ =~= Seq::empty());
            }
            ""
        },
    };
    let provided: String = token_of(header);
    proof {
        encode_utf8_decode_utf8(provided@);
        encode_utf8_decode_utf8(expected@);
    }
    if constant_time_eq(provided.as_str().as_bytes(), expected.as_bytes()) {
        return None;
    }
    let mut m: Vec<(String, Json)> = json::no_members();
    json::put(&mut m, "error", Json::Text("unauthorized".to_owned()));
    json::put(&mut m, "message", Json::Text("Authorization: Bearer <token> required".to_owned()));
    Some(
        Refusal {
            status: 401,
            www_authenticate: "Bearer realm=\"postcrate\"",
            body: Json::Object(m),
        },
    )
}

fn byte_at(s: &[u8], i: usize) -> (r: u8)
    ensures
        r == if i < s@.len() {
            s@[i as int]
        } else {
            0u8
        },
{
    if i < s.len() {
        s[i]
    } else {
        0
    }
}

/// Whether two byte slices are equal. The time that it takes tells nothing of where
/// they differ.
pub fn constant_time_eq(a: &[u8], b: &[u8]) -> (r: bool)
    ensures
        r == (a@ == b@),
{
    let len: usize = if a.len() > b.len() {
        a.len()
    } else {
        b.len()
    };
    let mut diff: u8 = if a.len() != b.len() {
        1
    } else {
        0
    };
    let mut i: usize = 0;
    assert(a@.take(0) =~= b@.take(0));
    while i < len
        invariant
            i <= len,
            a@.len() <= len,
            b@.len() <= len,
            diff == 0 <==> (a@.len() == b@.len() && a@.take(i as int) == b@.take(i as int)),
            a@.len() == b@.len() ==> len == a@.len(),
        decreases len - i,
    {
        let x: u8 = byte_at(a, i);
        let y: u8 = byte_at(b, i);
        assert((diff | (x ^ y)) == 0 <==> (diff == 0 && x == y)) by (bit_vector);
        diff = diff | (x ^ y);
        proof {
            if a@.len() == b@.len() {
                lemma_one_more(a@, b@, i as int);
            }
        }
        i = i + 1;
    }
    proof {
        if a@.len() == b@.len() {
            assert(a@.take(i as int) =~= a@);
            assert(b@.take(i as int) =~= b@);
        }
    }
    diff == 0
}

proof fn lemma_one_more(a: Seq<u8>, b: Seq<u8>, i: int)
    requires
        0 <= i < a.len(),
        a.len() == b.len(),
    ensures
        a.take(i + 1) == b.take(i + 1) <==> (a.take(i) == b.take(i) && a[i] == b[i]),
{
    assert(a.take(i + 1) =~= a.take(i).push(a[i]));
    assert(b.take(i + 1) =~= b.take(i).push(b[i]));
    assert(a.take(i + 1).drop_last() =~= a.take(i));
    assert(b.take(i + 1).drop_last() =~= b.take(i));
    assert(a.take(i + 1)[i] == a[i]);
    assert(b.take(i + 1)[i] == b[i]);
}

/// A request that carries the token is let in, whichever way the scheme is written.
pub proof fn law_right_token_is_admitted(token: Seq<char>, path: Seq<char>)
    ensures
        is_admitted(token, path, "Bearer "@ + token),
        is_admitted(token, path, "bearer "@ + token),
{
    let a = "Bearer "@ + token;
    let b = "bearer "@ + token;
    reveal_strlit("Bearer ");
    reveal_strlit("bearer ");
    assert(a.subrange(0, 7) =~= "Bearer "@);
    assert(a.skip(7) =~= token);
    assert(b.subrange(0, 7) =~= "bearer "@);
    assert(b.skip(7) =~= token);
    assert(b[0] == 'b');
    assert(!search::starts_with(b, "Bearer "@)) by {
        if search::starts_with(b, "Bearer "@) {
            assert(b.subrange(0, 7)[0] == "Bearer "@[0]);
        }
    }
}

/// A request without the header is refused wherever a token is set, but for the open
/// paths.
pub proof fn law_missing_token_is_refused(token: Seq<char>, path: Seq<char>)
    requires
        token.len() > 0,
        !is_open(path),
    ensures
        !is_admitted(token, path, Seq::empty()),
{
    reveal_strlit("Bearer ");
    reveal_strlit("bearer ");
}

proof fn lemma_refusal_keys()
    ensures
        "error"@ != "message"@,
{
    reveal_strlit("error");
    assert("error"@.len() == 5);
    reveal_strlit("message");
    assert("message"@.len() == 7);
}

/// A refused request is told that it is not authorised, and what is required.
pub proof fn law_refusal_members()
    ensures
        ({
            let j = refusal_body();
            &&& json::member(j, "error"@) == Some(json::JsonModel::Text("unauthorized"@))
            &&& json::member(j, "message"@) == Some(json::JsonModel::Text("Authorization: Bearer <token> required"@))
            &&& json::has_only(j, set!["error"@, "message"@])
        }),
{
    lemma_refusal_keys();
}

/// Where a token is set, a request is let in exactly where it asks for the health or the
/// info endpoint, or carries the token behind the scheme in one of its two spellings.
pub proof fn law_only_the_token_is_admitted(
    expected: Seq<char>,
    path: Seq<char>,
    authorization: Seq<char>,
)
    requires
        expected.len() > 0,
    ensures
        is_admitted(expected, path, authorization) <==> {
            ||| path == "/healthz"@
            ||| path == "/info"@
            ||| authorization == "Bearer "@ + expected
            ||| authorization == "bearer "@ + expected
        },
{
    law_right_token_is_admitted(expected, path);
    reveal_strlit("Bearer ");
    reveal_strlit("bearer ");
    let a = "Bearer "@;
    let b = "bearer "@;
    if search::starts_with(authorization, a) {
        assert(authorization =~= a + authorization.skip(7));
        if search::starts_with(authorization, b) {
            assert(authorization.subrange(0, 7)[0] == a[0]);
            assert(authorization.subrange(0, 7)[0] == b[0]);
        }
    } else if search::starts_with(authorization, b) {
        assert(authorization =~= b + authorization.skip(7));
    }
}

} // verus!
