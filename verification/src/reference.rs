use vstd::prelude::*;

use crate::chars::{find_char, first_index_of, has_char, lemma_first_index_unique};

verus! {

/// A parsed image reference: a repository name and a tag.
#[derive(Clone, Debug)]
pub struct ImageReference {
    pub name: String,
    pub tag: String,
}

/// The tag an image reference carries when none is written.
pub open spec fn default_tag() -> Seq<char> {
    "latest"@
}

/// The name part of a textual reference: everything before the first `:`,
/// or the whole string when there is no `:`.
pub open spec fn parsed_name(s: Seq<char>) -> Seq<char> {
    if has_char(s, ':') {
        s.subrange(0, first_index_of(s, ':'))
    } else {
        s
    }
}

/// The tag part of a textual reference: everything after the first `:`,
/// or `latest` when there is no `:`.
pub open spec fn parsed_tag(s: Seq<char>) -> Seq<char> {
    if has_char(s, ':') {
        s.subrange(first_index_of(s, ':') + 1, s.len() as int)
    } else {
        default_tag()
    }
}

impl ImageReference {
    /// Splits a reference on its first `:` into name and tag; a reference
    /// without a `:` gets the tag `latest`.
    pub fn parse(s: &str) -> (r: ImageReference)
        ensures
            r.name@ == parsed_name(s@),
            r.tag@ == parsed_tag(s@),
    {
        let n = s.unicode_len();
        match find_char(s, ':') {
            Some(i) => {
                proof {
                    lemma_first_index_unique(s@, ':', i as int);
                }
                let name = s.substring_char(0, i).to_owned();
                let tag = s.substring_char(i + 1, n).to_owned();
                ImageReference { name, tag }
            },
            None => ImageReference { name: s.to_owned(), tag: "latest".to_owned() },
        }
    }
}

/// The manifest endpoint for an image: also the unauthenticated probe URL.
pub open spec fn manifest_url_of(name: Seq<char>, tag: Seq<char>) -> Seq<char> {
    "https://ghcr.io/v2/library/"@ + name + "/manifests/"@ + tag
}

/// The blob endpoint for one layer digest of an image.
pub open spec fn blob_url_of(name: Seq<char>, digest: Seq<char>) -> Seq<char> {
    "https://ghcr.io/v2/library/"@ + name + "/blobs/"@ + digest
}

/// The token endpoint derived from an auth challenge: the realm with the
/// service and scope as query parameters.
pub open spec fn token_url_of(realm: Seq<char>, service: Seq<char>, scope: Seq<char>) -> Seq<char> {
    realm + "?service="@ + service + "&scope="@ + scope
}

/// The value of the authorization header that presents a bearer token.
pub open spec fn bearer_value_of(token: Seq<char>) -> Seq<char> {
    "Bearer "@ + token
}

/// Builds the manifest URL for an image reference.
pub fn manifest_url(image: &ImageReference) -> (r: String)
    ensures
        r@ == manifest_url_of(image.name@, image.tag@),
{
    let mut url = "https://ghcr.io/v2/library/".to_owned();
    url.append(image.name.as_str());
    url.append("/manifests/");
    url.append(image.tag.as_str());
    url
}

/// Builds the blob URL for one layer digest of an image.
pub fn blob_url(image: &ImageReference, digest: &str) -> (r: String)
    ensures
        r@ == blob_url_of(image.name@, digest@),
{
    let mut url = "https://ghcr.io/v2/library/".to_owned();
    url.append(image.name.as_str());
    url.append("/blobs/");
    url.append(digest);
    url
}

/// Builds the token URL for an auth challenge.
pub fn token_url(realm: &str, service: &str, scope: &str) -> (r: String)
    ensures
        r@ == token_url_of(realm@, service@, scope@),
{
    let mut url = realm.to_owned();
    url.append("?service=");
    url.append(service);
    url.append("&scope=");
    url.append(scope);
    url
}

/// Builds the authorization header value for a bearer token.
pub fn bearer_value(token: &str) -> (r: String)
    ensures
        r@ == bearer_value_of(token@),
{
    let mut v = "Bearer ".to_owned();
    v.append(token);
    v
}

} // verus!
