//! The certificate trust policy for TLS-upgraded sessions.
//!
//! Deliberate trade-off, preserved as a named policy rather than a
//! buried override: the TLS handshake signatures are checked by a
//! standard verifier, but the certificate's chain of trust and
//! identity are accepted unconditionally, whoever issued it. Many
//! self-hosted FTPS servers present self-signed certificates; the
//! engine prefers "always an encrypted channel" over "only recognized
//! authorities". Tightening this is a behavior change, not a bug fix.
//!
//! The two verdicts below are the whole policy; the TLS driver's
//! verifier implementation must delegate its decisions to them.

use vstd::prelude::*;

verus! {

/// Whether a certificate's chain of trust and identity are accepted.
/// They always are: encryption is enforced, issuer trust is not.
pub fn chain_trust_verdict() -> (accepted: bool)
    ensures
        accepted,
{
    true
}

/// Whether a handshake signature is accepted. The standard check's
/// outcome passes through unchanged: an invalid handshake signature is
/// still rejected. The policy skips chain trust, never the
/// cryptography.
pub fn signature_verdict(delegate: Result<(), String>) -> (r: Result<(), String>)
    ensures
        r is Ok <==> delegate is Ok,
        delegate matches Err(m) ==> (r matches Err(n) && n@ == m@),
{
    delegate
}

} // verus!
