//! URL validation.

use vstd::prelude::*;
use crate::error::HttpClientError;
use crate::text::{chars_of, has_prefix, starts_with};

verus! {

/// A URL the client accepts: not empty, and beginning with one of the two schemes.
pub open spec fn url_is_valid(url: Seq<char>) -> bool {
    url.len() > 0 && (has_prefix(url, "http://"@) || has_prefix(url, "https://"@))
}

/// Rejects an empty URL and one that names no HTTP scheme.
pub fn validate_url(url: &str) -> (r: Result<(), HttpClientError>)
    ensures
        r.is_ok() <==> url_is_valid(url@),
        r matches Err(e) ==> e == (if url@.len() == 0 {
            HttpClientError::EmptyUrl
        } else {
            HttpClientError::MissingScheme
        }),
{
    let chars = chars_of(url);
    if chars.len() == 0 {
        return Err(HttpClientError::EmptyUrl);
    }
    let plain = chars_of("http://");
    let secure = chars_of("https://");
    if !starts_with(&chars, &plain) && !starts_with(&chars, &secure) {
        return Err(HttpClientError::MissingScheme);
    }
    Ok(())
}

} // verus!
