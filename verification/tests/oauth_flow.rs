//! The OAuth bookkeeping of the MCP endpoint: actor strings, PKCE, the
//! authorization and token requests, and token expiry.

use kid::oauth::{
    actor_string, bearer_token, ApprovalForm, BaseUrl, AuthorizeQuery, ClientPrefix, OAuthError, OAuthStore, OnBehalfOf,
    PkceChallenge, Prefix, RegisteredClient, TokenAnswer, TokenRequest, ACCESS_TOKEN_EXPIRES_IN, SERVER_ERROR_STATUS,
    UNAUTHORIZED_STATUS, UNPARSABLE_FORM_STATUS,
};
use kid::time::Timestamp;

const REDIRECT: &str = "http://localhost:6274/oauth/callback";

fn at(s: i64) -> Timestamp {
    Timestamp { secs: 1_778_486_400 + s, nanos: 0, offset: 0 }
}

fn base() -> BaseUrl {
    BaseUrl { origin: "https://mcp.example.com".to_string(), host: Some("mcp.example.com".to_string()), port: None }
}

fn store() -> OAuthStore {
    OAuthStore::new(base(), vec![
        RegisteredClient {
            name: "mcp-inspector".to_string(),
            redirect_uri: REDIRECT.to_string(),
            secret: "s3cret".to_string(),
            prefix: None,
            on_behalf_of: Some("Jane".to_string()),
        },
        RegisteredClient {
            name: "example.ai".to_string(),
            redirect_uri: "https://example.ai/cb".to_string(),
            secret: "other".to_string(),
            prefix: Some(ClientPrefix::Ai),
            on_behalf_of: Some("Jane".to_string()),
        },
    ])
}

#[test]
fn ai_prefix_display() {
    assert_eq!(ClientPrefix::Ai.to_string(), "ai");
}

#[test]
fn actor_strings() {
    let obo = OnBehalfOf("Jane".to_string());
    assert_eq!(
        actor_string(Some("example.ai"), Some(Prefix(ClientPrefix::Ai)), Some(&obo)),
        Ok("ai:example.ai:Jane".to_string())
    );
    assert_eq!(actor_string(Some("relay"), None, Some(&obo)), Ok("relay:Jane".to_string()));
    assert_eq!(actor_string(None, None, Some(&obo)), Ok("unknown:Jane".to_string()));
    assert_eq!(
        actor_string(Some("example.ai"), Some(Prefix(ClientPrefix::Ai)), None),
        Err("client ai:example.ai is read-only (no on-behalf-of configured)".to_string())
    );
}

#[test]
fn pkce_s256_example() {
    let pkce = PkceChallenge { challenge: "E9Melhoa2OwvFrEMTJguCHaoeK1t8URWbuGJSstw-cM".to_string() };
    assert!(pkce.verify("dBjftJeZ4CVP-mB92K27uhbUJU1p1r_wW1gFWFOEjXk"));
    assert!(!pkce.verify("dBjftJeZ4CVP-mB92K27uhbUJU1p1r_wW1gFWFOEjXx"));
}

#[test]
fn token_answer_texts() {
    let t = TokenAnswer::new(0x0123_4567_89ab_cdef_0123_4567_89ab_cdef, 1);
    assert_eq!(t.token_type, "Bearer");
    assert_eq!(t.access_token, "0123456789abcdef0123456789abcdef");
    assert_eq!(t.refresh_token, "00000000000000000000000000000001");
    assert_eq!(t.expires_in, ACCESS_TOKEN_EXPIRES_IN);
}

fn query(client: &str, redirect: &str, response_type: &str, challenge: Option<&str>, method: Option<&str>) -> AuthorizeQuery {
    AuthorizeQuery {
        response_type: response_type.to_string(),
        client_id: client.to_string(),
        redirect_uri: redirect.to_string(),
        scope: None,
        state: Some("xyz".to_string()),
        code_challenge: challenge.map(str::to_string),
        code_challenge_method: method.map(str::to_string),
    }
}

#[test]
fn authorize_refusals_in_order() {
    let s = store();
    let e = |q: AuthorizeQuery| s.authorize(&q).err();
    assert_eq!(e(query("nobody", REDIRECT, "code", None, None)), Some(OAuthError::UnregisteredClient));
    assert_eq!(e(query("mcp-inspector", "http://evil", "code", None, None)), Some(OAuthError::UnregisteredRedirectUri));
    assert_eq!(e(query("mcp-inspector", REDIRECT, "token", None, None)), Some(OAuthError::UnsupportedResponseType));
    assert_eq!(e(query("mcp-inspector", REDIRECT, "code", Some("abc"), Some("plain"))), Some(OAuthError::UnsupportedChallengeMethod));
    assert_eq!(e(query("mcp-inspector", REDIRECT, "code", Some("abc"), None)), Some(OAuthError::UnsupportedChallengeMethod));
    assert_eq!(OAuthError::UnregisteredRedirectUri.description(), "unregistered redirect uri");
    assert_eq!(OAuthError::UnsupportedChallengeMethod.error(), "invalid_request");
}

#[test]
fn authorize_page() {
    let s = store();
    let page = s.authorize(&query("mcp-inspector", REDIRECT, "code", Some("abc"), Some("S256"))).unwrap();
    assert_eq!(page.client_id, "mcp-inspector");
    assert_eq!(page.scope, "");
    assert_eq!(page.scopes, "(no scope)");
    assert_eq!(page.state, "xyz");
    assert_eq!(page.code_challenge, "abc");
    assert_eq!(page.code_challenge_method, "S256");
}

fn form(approved: &str, challenge: &str, state: &str) -> ApprovalForm {
    ApprovalForm {
        client_id: "mcp-inspector".to_string(),
        redirect_uri: REDIRECT.to_string(),
        state: state.to_string(),
        approved: approved.to_string(),
        code_challenge: challenge.to_string(),
        code_challenge_method: "S256".to_string(),
    }
}

/// The code in a redirect URL `...?code=<code>&state=...`.
fn code_of(url: &str) -> String {
    let rest = url.split("?code=").nth(1).unwrap();
    rest.split('&').next().unwrap().to_string()
}

fn token_request(grant: &str, code: &str, verifier: Option<&str>, refresh: &str) -> TokenRequest {
    TokenRequest {
        grant_type: grant.to_string(),
        code: code.to_string(),
        client_id: "mcp-inspector".to_string(),
        client_secret: "s3cret".to_string(),
        redirect_uri: REDIRECT.to_string(),
        code_verifier: verifier.map(str::to_string),
        refresh_token: refresh.to_string(),
    }
}

#[test]
fn denied_approval_redirects_with_error() {
    let mut s = store();
    assert_eq!(s.approve_at(&form("false", "", "xyz"), at(0)), format!("{REDIRECT}?error=access_denied&state=xyz"));
    assert_eq!(s.approve_at(&form("no", "", ""), at(0)), format!("{REDIRECT}?error=access_denied"));
}

#[test]
fn code_exchange_with_pkce_is_single_use() {
    let mut s = store();
    let url = s.approve_at(&form("true", "E9Melhoa2OwvFrEMTJguCHaoeK1t8URWbuGJSstw-cM", "xyz"), at(0));
    assert!(url.starts_with(&format!("{REDIRECT}?code=")));
    assert!(url.ends_with("&state=xyz"));
    let code = code_of(&url);
    assert_eq!(code.len(), 32);

    let req = token_request("authorization_code", &code, Some("dBjftJeZ4CVP-mB92K27uhbUJU1p1r_wW1gFWFOEjXk"), "");
    let answer = s.issue_token_at(&req, at(10)).unwrap();
    assert_eq!(answer.token_type, "Bearer");
    assert_eq!(answer.access_token.len(), 32);

    // the code is used up
    assert_eq!(s.issue_token_at(&req, at(11)).err(), Some(OAuthError::InvalidAuthCode));

    // the access token authenticates
    let header = format!("Bearer {}", answer.access_token);
    let grant = s.authenticate_at(Some(&header), at(20)).unwrap();
    assert_eq!(grant.client_id, "mcp-inspector");
    assert_eq!(grant.actor.on_behalf_of, Some("Jane".to_string()));

    // until it expires
    assert!(s.authenticate_at(Some(&header), at(10 + 3600)).is_none());
    assert!(s.authenticate_at(Some(&header), at(20)).is_none());
}

#[test]
fn wrong_verifier_is_refused_and_code_is_gone() {
    let mut s = store();
    let url = s.approve_at(&form("true", "E9Melhoa2OwvFrEMTJguCHaoeK1t8URWbuGJSstw-cM", ""), at(0));
    let code = code_of(&url);
    let bad = token_request("authorization_code", &code, Some("not-the-verifier"), "");
    assert_eq!(s.issue_token_at(&bad, at(1)).err(), Some(OAuthError::InvalidCodeVerifier));
    let good = token_request("authorization_code", &code, Some("dBjftJeZ4CVP-mB92K27uhbUJU1p1r_wW1gFWFOEjXk"), "");
    assert_eq!(s.issue_token_at(&good, at(2)).err(), Some(OAuthError::InvalidAuthCode));
}

#[test]
fn missing_verifier_is_refused() {
    let mut s = store();
    let url = s.approve_at(&form("true", "E9Melhoa2OwvFrEMTJguCHaoeK1t8URWbuGJSstw-cM", ""), at(0));
    let req = token_request("authorization_code", &code_of(&url), None, "");
    assert_eq!(s.issue_token_at(&req, at(1)).err(), Some(OAuthError::InvalidCodeVerifier));
}

#[test]
fn expired_code_is_refused() {
    let mut s = store();
    let url = s.approve_at(&form("true", "", ""), at(0));
    let req = token_request("authorization_code", &code_of(&url), None, "");
    assert_eq!(s.issue_token_at(&req, at(600)).err(), Some(OAuthError::InvalidAuthCode));
}

#[test]
fn code_without_challenge_needs_no_verifier() {
    let mut s = store();
    let url = s.approve_at(&form("true", "", ""), at(0));
    let req = token_request("authorization_code", &code_of(&url), None, "");
    assert!(s.issue_token_at(&req, at(599)).is_ok());
}

#[test]
fn client_checks_come_first() {
    let mut s = store();
    let mut req = token_request("authorization_code", "whatever", None, "");
    req.client_id = String::new();
    assert_eq!(s.issue_token_at(&req, at(0)).err(), Some(OAuthError::EmptyClientId));
    req.client_id = "stranger".to_string();
    assert_eq!(s.issue_token_at(&req, at(0)).err(), Some(OAuthError::UnknownClient));
    req.client_id = "mcp-inspector".to_string();
    req.client_secret = "guess".to_string();
    assert_eq!(s.issue_token_at(&req, at(0)).err(), Some(OAuthError::InvalidSecret));
    req.client_secret = "s3cret".to_string();
    req.grant_type = "password".to_string();
    assert_eq!(s.issue_token_at(&req, at(0)).err(), Some(OAuthError::UnsupportedGrantType));
    assert_eq!(OAuthError::UnsupportedGrantType.description(), "only authorization_code is supported");
}

#[test]
fn refresh_token_is_reusable_until_it_expires() {
    let mut s = store();
    let url = s.approve_at(&form("true", "", ""), at(0));
    let first = s.issue_token_at(&token_request("authorization_code", &code_of(&url), None, ""), at(1)).unwrap();
    let refresh = token_request("refresh_token", "", None, &first.refresh_token);
    let second = s.issue_token_at(&refresh, at(100)).unwrap();
    assert_ne!(second.access_token, first.access_token);
    assert!(s.issue_token_at(&refresh, at(200)).is_ok());
    assert_eq!(s.issue_token_at(&refresh, at(1 + 30 * 24 * 3600)).err(), Some(OAuthError::InvalidRefreshToken));
}

#[test]
fn bearer_header_forms() {
    assert_eq!(bearer_token(Some("Bearer abc")), Some("abc"));
    assert_eq!(bearer_token(Some("Bearer ")), Some(""));
    assert_eq!(bearer_token(Some("Basic abc")), None);
    assert_eq!(bearer_token(Some("Bear")), None);
    assert_eq!(bearer_token(None), None);
}

#[test]
fn cleanup_drops_expired_tokens_only() {
    let mut s = store();
    let url = s.approve_at(&form("true", "", ""), at(0));
    let answer = s.issue_token_at(&token_request("authorization_code", &code_of(&url), None, ""), at(1)).unwrap();
    let stale_code = code_of(&s.approve_at(&form("true", "", ""), at(2)));
    s.cleanup_at(at(1000));
    let header = format!("Bearer {}", answer.access_token);
    assert!(s.authenticate_at(Some(&header), at(1000)).is_some());
    let req = token_request("authorization_code", &stale_code, None, "");
    assert_eq!(s.issue_token_at(&req, at(1000)).err(), Some(OAuthError::InvalidAuthCode));
    s.cleanup_at(at(5000));
    assert!(s.authenticate_at(Some(&header), at(1000)).is_none());
}

#[test]
fn actor_config_of_registered_and_unknown_clients() {
    let s = store();
    let a = s.actor_config("example.ai");
    assert_eq!(a.prefix, Some(ClientPrefix::Ai));
    assert_eq!(a.on_behalf_of, Some("Jane".to_string()));
    let u = s.actor_config("nobody");
    assert_eq!(u.prefix, None);
    assert_eq!(u.on_behalf_of, None);
}

#[test]
fn server_metadata() {
    let b = base();
    assert_eq!(b.issuer_host(), "mcp.example.com");
    let local = BaseUrl { origin: "http://127.0.0.1:9100".to_string(), host: Some("127.0.0.1".to_string()), port: Some(9100) };
    assert_eq!(local.issuer_host(), "127.0.0.1:9100");
    assert_eq!(
        b.www_authenticate(),
        "Bearer resource_metadata=\"https://mcp.example.com/.well-known/oauth-protected-resource/mcp\""
    );
    let m = b.auth_server_metadata();
    assert_eq!(m.registration_endpoint, "https://mcp.example.com/register");
    assert_eq!(m.authorization_endpoint, "https://mcp.example.com/authorize");
    assert_eq!(m.token_endpoint, "https://mcp.example.com/token");
    assert_eq!(m.issuer, "mcp.example.com");
    assert_eq!(m.code_challenge_methods_supported, vec!["S256".to_string()]);
    let r = b.protected_resource_metadata();
    assert_eq!(r.resource, "https://mcp.example.com/mcp");
    assert_eq!(r.authorization_servers, vec!["https://mcp.example.com".to_string()]);
    assert_eq!(store().base_url().origin, "https://mcp.example.com");
}

#[test]
fn machine_client_gets_token_by_client_credentials() {
    let mut s = OAuthStore::new(
        base(),
        vec![RegisteredClient {
            name: "matrix-relay".to_string(),
            redirect_uri: String::new(),
            secret: "s".to_string(),
            prefix: None,
            on_behalf_of: None,
        }],
    );
    let mut req = token_request("client_credentials", "", None, "");
    req.client_id = "matrix-relay".to_string();
    req.client_secret = "s".to_string();
    let t = s.issue_token_at(&req, at(0)).unwrap();
    assert_eq!(t.token_type, "Bearer");
    assert_eq!(t.expires_in, ACCESS_TOKEN_EXPIRES_IN);
    let header = format!("Bearer {}", t.access_token);
    let grant = s.authenticate_at(Some(&header), at(10)).unwrap();
    assert_eq!(grant.client_id, "matrix-relay");
    req.client_secret = "wrong".to_string();
    assert_eq!(s.issue_token_at(&req, at(0)).err(), Some(OAuthError::InvalidSecret));
    assert_eq!(OAuthError::InvalidSecret.status(), 400);
    assert!(s.authenticate_at(Some("Bearer nothing"), at(20)).is_none());
    s.cleanup_at(at(100_000));
    assert_eq!(
        s.base_url().www_authenticate(),
        "Bearer resource_metadata=\"https://mcp.example.com/.well-known/oauth-protected-resource/mcp\""
    );
}

#[test]
fn http_statuses_of_refusals() {
    for e in [OAuthError::UnregisteredClient, OAuthError::InvalidSecret, OAuthError::UnsupportedGrantType] {
        assert_eq!(e.status(), 400);
    }
    assert_eq!(UNPARSABLE_FORM_STATUS, 422);
    assert_eq!(UNAUTHORIZED_STATUS, 401);
    assert_eq!(SERVER_ERROR_STATUS, 500);
}
