//! Caller identity: a bearer JWT's claims, and the signed headers that carry
//! the identity to subgraphs.

use vstd::prelude::*;
use crate::digest::{hex_encode, hex_of, hmac_sha256, hmac_sha256_bytes, lemma_hex_of_len};
use crate::http::{header_text, Headers};
use crate::text::{is_blank, strip_prefix, strip_prefix_str, trim, trim_str};

verus! {

/// Who is calling. Requests without a valid token are `anonymous`.
#[derive(Debug, Clone, PartialEq, Eq)]
pub struct Identity {
    pub sub: String,
    pub loyalty_tier: String,
    pub email: String,
}

/// The claims of a verified token (`loyalty_tier` and `email` are empty when
/// the token leaves them out).
#[derive(Debug)]
pub struct Claims {
    pub sub: String,
    pub loyalty_tier: String,
    pub email: String,
}

/// `sub`, `tier` and `email` on lines of their own: what the signature covers.
pub open spec fn canonical_identity_spec(sub: Seq<char>, tier: Seq<char>, email: Seq<char>) -> Seq<char> {
    sub + "\n"@ + tier + "\n"@ + email
}

/// `{sub}\n{tier}\n{email}`.
pub fn canonical_identity(sub: &str, tier: &str, email: &str) -> (r: String)
    ensures
        r@ == canonical_identity_spec(sub@, tier@, email@),
{
    let mut r = sub.to_owned();
    r.append("\n");
    r.append(tier);
    r.append("\n");
    r.append(email);
    r
}

/// The bearer token of the `authorization` header: its trimmed text after
/// `Bearer ` or `bearer `, trimmed again, when not blank.
pub open spec fn bearer_token_spec(h: Seq<(Seq<char>, Option<Seq<char>>)>) -> Option<Seq<char>> {
    match header_text(h, "authorization"@) {
        Some(v) => {
            let rest = match strip_prefix(trim(v), "Bearer "@) {
                Some(r) => Some(r),
                None => strip_prefix(trim(v), "bearer "@),
            };
            match rest {
                Some(r) => if trim(r).len() > 0 {
                    Some(trim(r))
                } else {
                    None
                },
                None => None,
            }
        },
        None => None,
    }
}

/// The token to verify, if the request carries one.
pub fn bearer_token(headers: &Headers) -> (r: Option<String>)
    ensures
        match r {
            Some(t) => bearer_token_spec(headers@) == Some(t@),
            None => bearer_token_spec(headers@) is None,
        },
{
    let v = match headers.text("authorization") {
        Some(v) => trim_str(v.as_str()),
        None => {
            return None;
        },
    };
    let rest = match strip_prefix_str(v.as_str(), "Bearer ") {
        Some(r) => Some(r),
        None => strip_prefix_str(v.as_str(), "bearer "),
    };
    match rest {
        Some(r) => if is_blank(r.as_str()) {
            None
        } else {
            Some(trim_str(r.as_str()))
        },
        None => None,
    }
}

pub open spec fn claims_view(c: Option<Claims>) -> Option<(Seq<char>, Seq<char>, Seq<char>)> {
    match c {
        Some(c) => Some((c.sub@, c.loyalty_tier@, c.email@)),
        None => None,
    }
}

/// `sub`, `loyalty_tier` and `email` of the anonymous caller.
pub open spec fn anonymous_spec() -> (Seq<char>, Seq<char>, Seq<char>) {
    ("anonymous"@, "anonymous"@, Seq::empty())
}

/// The identity that claims give: theirs when `sub` is not blank, else
/// anonymous.
pub open spec fn identity_of_claims(c: Option<(Seq<char>, Seq<char>, Seq<char>)>) -> (Seq<char>, Seq<char>, Seq<char>) {
    match c {
        Some((sub, tier, email)) => if trim(sub).len() > 0 {
            (sub, tier, email)
        } else {
            anonymous_spec()
        },
        None => anonymous_spec(),
    }
}

/// The signature sent as `x-identity-signature`.
pub open spec fn signature_spec(sub: Seq<char>, tier: Seq<char>, email: Seq<char>, secret: Seq<char>) -> Seq<char> {
    hex_of(hmac_sha256(secret, canonical_identity_spec(sub, tier, email)))
}

impl Identity {
    /// The identity of a request without a valid token.
    pub fn anonymous() -> (r: Identity)
        ensures
            r.sub@ == "anonymous"@,
            r.loyalty_tier@ == "anonymous"@,
            r.email@ == Seq::<char>::empty(),
    {
        Identity {
            sub: "anonymous".to_owned(),
            loyalty_tier: "anonymous".to_owned(),
            email: String::new(),
        }
    }

    /// The identity of a request given the claims of its token (`None` when
    /// it has no token or the token does not verify): the claims when their
    /// `sub` is not blank, else anonymous.
    pub fn from_claims(claims: Option<Claims>) -> (r: Identity)
        ensures
            (r.sub@, r.loyalty_tier@, r.email@) == identity_of_claims(claims_view(claims)),
    {
        match claims {
            Some(c) => if is_blank(c.sub.as_str()) {
                Identity::anonymous()
            } else {
                Identity { sub: c.sub, loyalty_tier: c.loyalty_tier, email: c.email }
            },
            None => Identity::anonymous(),
        }
    }

    /// Hex HMAC-SHA256, keyed with `secret`, of the canonical identity.
    pub fn signature(&self, secret: &str) -> (r: String)
        ensures
            r@ == signature_spec(self.sub@, self.loyalty_tier@, self.email@, secret@),
            r@.len() == 64,
    {
        let c = canonical_identity(self.sub.as_str(), self.loyalty_tier.as_str(), self.email.as_str());
        let mac = hmac_sha256_bytes(secret, c.as_str());
        proof {
            lemma_hex_of_len(mac@);
        }
        hex_encode(&mac)
    }

    /// The headers that carry the identity to subgraphs, with the signature
    /// that lets them trust it.
    pub fn signed_headers(&self, secret: &str) -> (r: Vec<(&'static str, String)>)
        ensures
            r@.len() == 4,
            r@[0].0@ == "x-user-id"@ && r@[0].1@ == self.sub@,
            r@[1].0@ == "x-user-tier"@ && r@[1].1@ == self.loyalty_tier@,
            r@[2].0@ == "x-user-email"@ && r@[2].1@ == self.email@,
            r@[3].0@ == "x-identity-signature"@ && r@[3].1@ == signature_spec(
                self.sub@,
                self.loyalty_tier@,
                self.email@,
                secret@,
            ),
            r@[3].1@.len() == 64,
    {
        let mut r: Vec<(&'static str, String)> = Vec::new();
        r.push(("x-user-id", self.sub.clone()));
        r.push(("x-user-tier", self.loyalty_tier.clone()));
        r.push(("x-user-email", self.email.clone()));
        r.push(("x-identity-signature", self.signature(secret)));
        r
    }
}

} // verus!
