use jsonwebtoken::{decode, encode, Algorithm, DecodingKey, EncodingKey, Header, Validation};
use travelgraph_router::auth::{bearer_token, canonical_identity, Claims, Identity};
use travelgraph_router::http::Headers;

/// Verifies `token` as the router does (HS256, no expiry or required
/// claims) and reads its claims.
fn verified_claims(token: &str, secret: &str) -> Option<Claims> {
    let mut validation = Validation::new(Algorithm::HS256);
    validation.validate_exp = false;
    validation.required_spec_claims.clear();
    let data = decode::<serde_json::Value>(token, &DecodingKey::from_secret(secret.as_bytes()), &validation).ok()?;
    let text = |k: &str| match data.claims.get(k) {
        None => Some(String::new()),
        Some(v) => v.as_str().map(|s| s.to_string()),
    };
    let sub = data.claims.get("sub")?.as_str()?.to_string();
    Some(Claims { sub, loyalty_tier: text("loyalty_tier")?, email: text("email")? })
}

fn identity_of(headers: &Headers, secret: &str) -> Identity {
    match bearer_token(headers) {
        Some(token) => Identity::from_claims(verified_claims(&token, secret)),
        None => Identity::anonymous(),
    }
}

fn token_for(claims: serde_json::Map<String, serde_json::Value>, secret: &str) -> String {
    encode(
        &Header::new(Algorithm::HS256),
        &serde_json::Value::Object(claims),
        &EncodingKey::from_secret(secret.as_bytes()),
    )
    .unwrap()
}

fn bearer(token: &str) -> Headers {
    let mut headers = Headers::new();
    headers.push("authorization".to_string(), Some(format!("Bearer {token}")));
    headers
}

#[test]
fn valid_jwt_extracts_identity() {
    let secret = "jwt-secret";
    let mut claims = serde_json::Map::new();
    claims.insert("sub".to_string(), serde_json::Value::String("user-1".to_string()));
    claims.insert("loyalty_tier".to_string(), serde_json::Value::String("gold".to_string()));
    claims.insert("email".to_string(), serde_json::Value::String("a@example.com".to_string()));
    let token = encode(
        &Header::new(Algorithm::HS256),
        &serde_json::Value::Object(claims),
        &EncodingKey::from_secret(secret.as_bytes()),
    )
    .unwrap();
    let mut headers = Headers::new();
    headers.push("authorization".to_string(), Some(format!("Bearer {token}")));

    assert_eq!(
        identity_of(&headers, secret),
        Identity { sub: "user-1".into(), loyalty_tier: "gold".into(), email: "a@example.com".into() }
    );
}

#[test]
fn invalid_or_missing_jwt_is_anonymous() {
    let mut headers = Headers::new();
    assert_eq!(identity_of(&headers, "secret"), Identity::anonymous());
    headers.push("authorization".to_string(), Some("Bearer not-a-jwt".to_string()));
    assert_eq!(identity_of(&headers, "secret"), Identity::anonymous());
}

#[test]
fn bearer_prefix_and_blank_tokens() {
    let mut h = Headers::new();
    h.push("authorization".to_string(), Some("  bearer  abc  ".to_string()));
    assert_eq!(bearer_token(&h), Some("abc".to_string()));
    let mut h = Headers::new();
    h.push("authorization".to_string(), Some("Bearer    ".to_string()));
    assert_eq!(bearer_token(&h), None);
    let mut h = Headers::new();
    h.push("authorization".to_string(), Some("Basic abc".to_string()));
    assert_eq!(bearer_token(&h), None);
    let mut h = Headers::new();
    h.push("authorization".to_string(), None);
    h.push("authorization".to_string(), Some("Bearer later".to_string()));
    assert_eq!(bearer_token(&h), None);
}

#[test]
fn blank_subject_is_anonymous() {
    let c = Claims { sub: "  ".to_string(), loyalty_tier: "gold".to_string(), email: String::new() };
    assert_eq!(Identity::from_claims(Some(c)), Identity::anonymous());
    let a = Identity::anonymous();
    assert_eq!(a.sub, "anonymous");
    assert_eq!(a.loyalty_tier, "anonymous");
    assert_eq!(a.email, "");
}

#[test]
fn signed_headers_carry_identity_and_hmac() {
    let id = Identity { sub: "u".into(), loyalty_tier: "t".into(), email: "e".into() };
    assert_eq!(canonical_identity("u", "t", "e"), "u\nt\ne");
    let h = id.signed_headers("key");
    assert_eq!(h.len(), 4);
    assert_eq!(h[0], ("x-user-id", "u".to_string()));
    assert_eq!(h[1], ("x-user-tier", "t".to_string()));
    assert_eq!(h[2], ("x-user-email", "e".to_string()));
    assert_eq!(h[3].0, "x-identity-signature");
    let sig = &h[3].1;
    assert_eq!(sig.len(), 64);
    assert!(sig.chars().all(|c| c.is_ascii_hexdigit() && !c.is_ascii_uppercase()));
    assert_ne!(sig, &id.signature("other-key"));
    assert_eq!(sig, &id.signature("key"));
}

#[test]
fn hmac_matches_known_vector() {
    // RFC 4231, second test vector: key "Jefe", data "what do ya want for nothing?".
    let mac = travelgraph_router::digest::hmac_sha256_bytes("Jefe", "what do ya want for nothing?");
    assert_eq!(
        travelgraph_router::digest::hex_encode(&mac),
        "5bdcc146bf60754e6a042426089575c75a003f089d2739839dec58b964ec3843"
    );
}

#[test]
fn token_signed_with_another_secret_is_anonymous() {
    let mut claims = serde_json::Map::new();
    claims.insert("sub".to_string(), serde_json::Value::String("user-1".to_string()));
    let token = token_for(claims, "other-secret");
    assert_eq!(identity_of(&bearer(&token), "jwt-secret"), Identity::anonymous());
}

#[test]
fn optional_claims_default_to_empty() {
    let mut claims = serde_json::Map::new();
    claims.insert("sub".to_string(), serde_json::Value::String("user-2".to_string()));
    claims.insert("exp".to_string(), serde_json::Value::from(1u64));
    let token = token_for(claims, "s");
    assert_eq!(
        identity_of(&bearer(&token), "s"),
        Identity { sub: "user-2".into(), loyalty_tier: String::new(), email: String::new() }
    );
}

#[test]
fn blank_or_missing_subject_in_token_is_anonymous() {
    let mut claims = serde_json::Map::new();
    claims.insert("sub".to_string(), serde_json::Value::String("   ".to_string()));
    let token = token_for(claims, "s");
    assert_eq!(identity_of(&bearer(&token), "s"), Identity::anonymous());
    let mut claims = serde_json::Map::new();
    claims.insert("email".to_string(), serde_json::Value::String("a@example.com".to_string()));
    let token = token_for(claims, "s");
    assert_eq!(identity_of(&bearer(&token), "s"), Identity::anonymous());
}

