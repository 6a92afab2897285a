//! Decision functions for the request boundary: creation authorization, the
//! redirect and stats decisions on what the external store answered, and
//! the construction of the public URLs. The HTTP layer performs the I/O and
//! hands these functions plain values.

use vstd::prelude::*;
use vstd::string::StringExecFns;
use crate::store::{result_view, str_opt_view};
use crate::LinkError;

verus! {

/// The view of an owned optional string.
pub open spec fn opt_string_view(o: Option<String>) -> Option<Seq<char>> {
    match o {
        Some(s) => Some(s@),
        None => None,
    }
}

/// Whether a creation request may proceed: a process-wide secret must be
/// configured, the request must carry a credential, and the two must match
/// exactly. With no secret configured, every request is refused.
pub fn creation_authorized(configured: Option<&String>, supplied: Option<&String>) -> (r: bool)
    ensures
        r == (configured is Some && supplied is Some && str_opt_view(configured) == str_opt_view(
            supplied,
        )),
{
    match (configured, supplied) {
        (Some(c), Some(s)) => *c == *s,
        _ => false,
    }
}

/// The redirect decision on a URL field read from the external store.
pub open spec fn redirect_decision(url: Option<Seq<char>>) -> Result<Seq<char>, LinkError> {
    match url {
        None => Err(LinkError::NotFound),
        Some(u) => if u.len() == 0 {
            Err(LinkError::NotFound)
        } else {
            Ok(u)
        },
    }
}

/// Decide a redirect from what the store answered for a key's URL field: no
/// record, and a record whose URL is still the empty reservation sentinel,
/// are both not-found; otherwise the stored URL is the redirect target.
pub fn redirect_target(url: Option<String>) -> (r: Result<String, LinkError>)
    ensures
        result_view(r) == redirect_decision(opt_string_view(url)),
{
    match url {
        None => Err(LinkError::NotFound),
        Some(u) => if u.as_str().is_empty() {
            Err(LinkError::NotFound)
        } else {
            Ok(u)
        },
    }
}

/// The stats access decision on a stored token and a supplied one.
pub open spec fn stats_access_decision(
    stored: Option<Seq<char>>,
    supplied: Option<Seq<char>>,
) -> Result<(), LinkError> {
    match stored {
        None => Err(LinkError::NotFound),
        Some(st) => match supplied {
            None => Err(LinkError::NotFound),
            Some(t) => if t != st {
                Err(LinkError::Unauthorized)
            } else {
                Ok(())
            },
        },
    }
}

/// Decide a stats read from what the store answered for a key's token field
/// and what the caller supplied: a missing record or stored token, and a
/// request that supplies none, are all not-found (deliberately alike, so an
/// unauthorized caller cannot learn whether a key exists); a mismatched
/// token is unauthorized; the exact stored token grants access.
pub fn stats_access(stored: Option<String>, supplied: Option<&String>) -> (r: Result<
    (),
    LinkError,
>)
    ensures
        r == stats_access_decision(opt_string_view(stored), str_opt_view(supplied)),
{
    match stored {
        None => Err(LinkError::NotFound),
        Some(st) => match supplied {
            None => Err(LinkError::NotFound),
            Some(t) => if *t == st {
                Ok(())
            } else {
                Err(LinkError::Unauthorized)
            },
        },
    }
}

/// The public short URL of a key: `<scheme>://<host>/<key>`.
pub fn make_short_url(scheme: &String, host: &String, key: &String) -> (r: String)
    ensures
        r@ == scheme@ + "://"@ + host@ + "/"@ + key@,
{
    let mut s = scheme.clone();
    s.append("://");
    s.append(host.as_str());
    s.append("/");
    s.append(key.as_str());
    s
}

/// The stats URL a creation response carries, embedding the secret token
/// once: `<short_url>/stats?token=<secret>`.
pub fn make_stats_url(short_url: &String, token: &String) -> (r: String)
    ensures
        r@ == short_url@ + "/stats?token="@ + token@,
{
    let mut s = short_url.clone();
    s.append("/stats?token=");
    s.append(token.as_str());
    s
}

} // verus!
