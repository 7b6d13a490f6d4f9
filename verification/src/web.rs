//! What every answer of the dashboard carries.

use vstd::prelude::*;

verus! {

/// The names and values of the headers that every answer carries.
pub open spec fn guard_headers() -> Seq<(Seq<char>, Seq<char>)> {
    seq![
        ("x-content-type-options"@, "nosniff"@),
        ("x-frame-options"@, "DENY"@),
        ("referrer-policy"@, "no-referrer"@),
        ("permissions-policy"@, "camera=(), microphone=(), geolocation=(), payment=()"@),
        (
            "content-security-policy"@,
            "default-src 'self'; connect-src 'self'; img-src 'self' data:; font-src https://fonts.gstatic.com; style-src 'self' 'unsafe-inline' https://fonts.googleapis.com; script-src 'self' 'unsafe-inline'; frame-ancestors 'none'; base-uri 'self'; form-action 'self'"@,
        ),
    ]
}

/// The names and values of the headers that every answer carries.
pub fn security_headers() -> (headers: Vec<(&'static str, &'static str)>)
    ensures
        headers@.map_values(|h: (&'static str, &'static str)| (h.0@, h.1@)) == guard_headers(),
{
    let mut headers: Vec<(&'static str, &'static str)> = Vec::new();
    headers.push(("x-content-type-options", "nosniff"));
    headers.push(("x-frame-options", "DENY"));
    headers.push(("referrer-policy", "no-referrer"));
    headers.push(
        ("permissions-policy", "camera=(), microphone=(), geolocation=(), payment=()"),
    );
    headers.push(
        (
            "content-security-policy",
            "default-src 'self'; connect-src 'self'; img-src 'self' data:; font-src https://fonts.gstatic.com; style-src 'self' 'unsafe-inline' https://fonts.googleapis.com; script-src 'self' 'unsafe-inline'; frame-ancestors 'none'; base-uri 'self'; form-action 'self'",
        ),
    );
    assert(headers@.map_values(|h: (&'static str, &'static str)| (h.0@, h.1@)) =~= guard_headers());
    headers
}

} // verus!
