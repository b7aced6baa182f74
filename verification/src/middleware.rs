//! API key authentication.
use vstd::prelude::*;

use crate::headers::{header_text, RequestHeaders};
use crate::text::{is_prefix, is_trim_of, is_white_space, same_text, starts_with, trim_white_space};

verus! {

/// The token that an authorization header carries: the text after "Bearer ", or the whole
/// text where it does not begin so, before trimming.
pub open spec fn bearer_token(auth: Seq<char>) -> Seq<char> {
    if is_prefix("Bearer "@, auth) {
        auth.subrange(7, auth.len() as int)
    } else {
        auth
    }
}

/// Without a configured API key every request is let through. With one, a request is let
/// through when its authorization header's token, with surrounding white space trimmed, is
/// the key; a request without a readable authorization header is not.
pub open spec fn authorized(headers: Seq<(String, Option<String>)>, api_key: Option<Seq<char>>) -> bool {
    match api_key {
        None => true,
        Some(key) => match header_text(headers, "authorization"@) {
            Some(auth) => is_trim_of(key, bearer_token(auth)),
            None => false,
        },
    }
}

/// The text of an optional key.
pub open spec fn opt_key(k: Option<&str>) -> Option<Seq<char>> {
    match k {
        Some(s) => Some(s@),
        None => None,
    }
}

/// A string has exactly one trimmed form.
pub proof fn lemma_trim_unique(a: Seq<char>, b: Seq<char>, s: Seq<char>)
    requires
        is_trim_of(a, s),
        is_trim_of(b, s),
    ensures
        a == b,
{
    let (i1, j1) = choose|i: int, j: int|
        #![trigger s.subrange(i, j)]
        0 <= i <= j <= s.len() && a == s.subrange(i, j) && (forall|k: int|
            0 <= k < i ==> is_white_space(#[trigger] s[k])) && (forall|k: int|
            j <= k < s.len() ==> is_white_space(#[trigger] s[k])) && (i < j ==> !is_white_space(
            s[i],
        ) && !is_white_space(s[j - 1]));
    let (i2, j2) = choose|i: int, j: int|
        #![trigger s.subrange(i, j)]
        0 <= i <= j <= s.len() && b == s.subrange(i, j) && (forall|k: int|
            0 <= k < i ==> is_white_space(#[trigger] s[k])) && (forall|k: int|
            j <= k < s.len() ==> is_white_space(#[trigger] s[k])) && (i < j ==> !is_white_space(
            s[i],
        ) && !is_white_space(s[j - 1]));
    if i1 < j1 && i2 < j2 {
        if i1 < i2 {
            assert(is_white_space(s[i1]));
        }
        if i2 < i1 {
            assert(is_white_space(s[i2]));
        }
        if j1 < j2 {
            assert(is_white_space(s[j2 - 1]));
        }
        if j2 < j1 {
            assert(is_white_space(s[j1 - 1]));
        }
    } else if i1 < j1 {
        // b is empty, so every character is white space
        if i1 < i2 {
            assert(is_white_space(s[i1]));
        } else {
            assert(is_white_space(s[i1]));
        }
    } else if i2 < j2 {
        if i2 < i1 {
            assert(is_white_space(s[i2]));
        } else {
            assert(is_white_space(s[i2]));
        }
    } else {
        assert(a =~= b);
    }
}

/// Whether a request with these headers may pass: no API key is configured, or its
/// authorization header holds the key, as "Bearer <key>" or as the bare key, with white space
/// around the key ignored.
pub fn is_authorized(headers: &RequestHeaders, api_key: Option<&str>) -> (r: bool)
    ensures
        r == authorized(headers.entries@, opt_key(api_key)),
{
    proof {
        reveal_strlit("authorization");
        reveal_strlit("Bearer ");
    }
    let api_key = match api_key {
        None => {
            return true;
        },
        Some(k) => k,
    };
    match headers.get_text("authorization") {
        None => false,
        Some(auth) => {
            // Support "Bearer <token>" or just "<token>" format
            let cs = crate::text::chars_of(auth.as_str());
            let stripped = if starts_with(auth.as_str(), "Bearer ") {
                crate::text::string_of(&cs, 7, cs.len())
            } else {
                crate::text::owned(auth.as_str())
            };
            let token = trim_white_space(stripped.as_str());
            let r = same_text(token.as_str(), api_key);
            proof {
                if is_trim_of(api_key@, bearer_token(auth@)) {
                    lemma_trim_unique(token@, api_key@, bearer_token(auth@));
                }
            }
            r
        },
    }
}

/// A key is trimmed when it neither begins nor ends with white space.
pub open spec fn is_trimmed(key: Seq<char>) -> bool {
    key.len() == 0 || (!is_white_space(key[0]) && !is_white_space(key[key.len() - 1]))
}

/// A request whose authorization header is "Bearer <key>", or the bare key, with the
/// configured key, is let through, for every key without surrounding white space; a
/// request without an authorization header is not.
pub proof fn law_configured_key_passes(headers: Seq<(String, Option<String>)>, api_key: Seq<char>)
    requires
        is_trimmed(api_key),
    ensures
        header_text(headers, "authorization"@) == Some("Bearer "@ + api_key) ==> authorized(headers, Some(api_key)),
        header_text(headers, "authorization"@) == Some(api_key) && !is_prefix("Bearer "@, api_key) ==> authorized(headers, Some(api_key)),
        header_text(headers, "authorization"@) is None ==> !authorized(headers, Some(api_key)),
{
    reveal_strlit("Bearer ");
    let t = api_key;
    assert(t.subrange(0, t.len() as int) =~= t);
    assert(is_trim_of(api_key, api_key)) by {
        assert(api_key == api_key.subrange(0, api_key.len() as int));
    }
    if header_text(headers, "authorization"@) == Some("Bearer "@ + api_key) {
        let a = "Bearer "@ + api_key;
        assert(is_prefix("Bearer "@, a)) by {
            assert(a.subrange(0, 7) =~= "Bearer "@);
        }
        assert(bearer_token(a) =~= api_key);
    }
}

/// Gateway authentication is optional: without a configured API key every request is let
/// through, whatever its headers.
pub proof fn law_open_without_key(headers: Seq<(String, Option<String>)>)
    ensures
        authorized(headers, None),
{
}

} // verus!
