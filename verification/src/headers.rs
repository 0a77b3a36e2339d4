//! The response headers that harden every answer of the service.

use vstd::prelude::*;

verus! {

/// A header name with its value.
pub type HeaderPair = (&'static str, &'static str);

/// The content security policy: everything from the service itself, scripts,
/// styles and fonts also from one content delivery network, no plugins,
/// media or frames.
pub open spec fn content_security_policy() -> Seq<char> {
    "default-src 'self'; script-src 'self' 'unsafe-inline' https://cdnjs.cloudflare.com; style-src 'self' 'unsafe-inline' https://cdnjs.cloudflare.com; img-src 'self' data: https:; connect-src 'self'; font-src 'self' https://cdnjs.cloudflare.com; object-src 'none'; media-src 'none'; frame-src 'none';"@
}

/// The security headers, in the order in which they are set.
pub open spec fn security_header_table() -> Seq<(Seq<char>, Seq<char>)> {
    seq![
        ("content-security-policy"@, content_security_policy()),
        ("x-frame-options"@, "DENY"@),
        ("x-content-type-options"@, "nosniff"@),
        ("x-xss-protection"@, "1; mode=block"@),
        ("strict-transport-security"@, "max-age=31536000; includeSubDomains"@),
        ("referrer-policy"@, "strict-origin-when-cross-origin"@),
        ("permissions-policy"@, "camera=(), microphone=(), geolocation=()"@),
    ]
}

/// The view of a header pair.
pub open spec fn pair_text(pair: HeaderPair) -> (Seq<char>, Seq<char>) {
    (pair.0@, pair.1@)
}

/// The headers to set on every response.
pub fn security_headers() -> (headers: Vec<HeaderPair>)
    ensures
        headers@.map_values(|pair: HeaderPair| pair_text(pair)) == security_header_table(),
{
    let mut headers: Vec<HeaderPair> = Vec::new();
    headers.push(
        (
            "content-security-policy",
            "default-src 'self'; script-src 'self' 'unsafe-inline' https://cdnjs.cloudflare.com; style-src 'self' 'unsafe-inline' https://cdnjs.cloudflare.com; img-src 'self' data: https:; connect-src 'self'; font-src 'self' https://cdnjs.cloudflare.com; object-src 'none'; media-src 'none'; frame-src 'none';",
        ),
    );
    headers.push(("x-frame-options", "DENY"));
    headers.push(("x-content-type-options", "nosniff"));
    headers.push(("x-xss-protection", "1; mode=block"));
    headers.push(("strict-transport-security", "max-age=31536000; includeSubDomains"));
    headers.push(("referrer-policy", "strict-origin-when-cross-origin"));
    headers.push(("permissions-policy", "camera=(), microphone=(), geolocation=()"));
    assert(headers@.map_values(|pair: HeaderPair| pair_text(pair)) =~= security_header_table());
    headers
}

} // verus!
