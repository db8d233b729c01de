//! OAuth bookkeeping of the MCP endpoint: registered clients, the actor
//! string their changes are recorded under, PKCE, and the grants behind
//! authorization codes, access tokens and refresh tokens.

use base64::Engine;
use sha2::Digest;
use std::collections::HashMap;
use vstd::prelude::*;
use vstd::utf8::encode_utf8;

use crate::ids::{spec_simple, spec_uuid_parse, spec_uuid_version, uuid_new_v4, uuid_now_v7, uuid_simple, uuid_try_parse};
use crate::text::{decimal, spec_decimal, str_eq};
use crate::time::{seconds_between, trunc_div, Timestamp, NANOS_PER_SEC};

verus! {

broadcast use vstd::std_specs::hash::group_hash_axioms;

/// Seconds an access token stays valid.
pub const ACCESS_TOKEN_EXPIRES_IN: u64 = 3600;

/// Seconds an authorization code stays redeemable.
pub const AUTH_CODE_EXPIRES_IN: u64 = 600;

/// Seconds a refresh token stays usable: 30 days.
pub const REFRESH_TOKEN_EXPIRES_IN: u64 = 2592000;

/// HTTP status of a token request whose form cannot be read as a form.
pub const UNPARSABLE_FORM_STATUS: u16 = 422;

/// HTTP status of a request to the MCP endpoint without a live bearer
/// token; it carries [`BaseUrl::www_authenticate`].
pub const UNAUTHORIZED_STATUS: u16 = 401;

/// HTTP status of a token request whose tokens were issued but whose answer
/// could not be written as JSON.
pub const SERVER_ERROR_STATUS: u16 = 500;

// ------------------------------------------------------------ identities

/// The prefixes a client's actor string can carry.
#[derive(Clone, Copy, Debug, PartialEq, Eq, Structural)]
pub enum ClientPrefix {
    /// The client is an AI assistant.
    Ai,
}

impl ClientPrefix {
    pub open spec fn spec_text(self) -> Seq<char> {
        match self {
            ClientPrefix::Ai => seq!['a', 'i'],
        }
    }

    /// The prefix as written in the actor string.
    pub fn as_str(&self) -> (s: &'static str)
        ensures
            s@ == self.spec_text(),
    {
        proof {
            reveal_strlit("ai");
        }
        match self {
            ClientPrefix::Ai => "ai",
        }
    }

    /// The prefix as written in the actor string.
    pub fn to_string(&self) -> (s: String)
        ensures
            s@ == self.spec_text(),
    {
        String::from_str(self.as_str())
    }
}

/// The OAuth client id a client authenticates with: its name.
#[derive(Debug)]
pub struct ClientId(pub String);

impl ClientId {
    pub fn as_str(&self) -> (s: &str)
        ensures
            s@ == self.0@,
    {
        self.0.as_str()
    }
}

/// The human a client acts on behalf of.
#[derive(Debug)]
pub struct OnBehalfOf(pub String);

impl OnBehalfOf {
    pub fn as_str(&self) -> (s: &str)
        ensures
            s@ == self.0@,
    {
        self.0.as_str()
    }
}

/// The prefix of a client's actor string.
#[derive(Clone, Copy, Debug, PartialEq, Eq, Structural)]
pub struct Prefix(pub ClientPrefix);

impl Prefix {
    pub fn to_string(&self) -> (s: String)
        ensures
            s@ == self.0.spec_text(),
    {
        self.0.to_string()
    }
}

/// The actor-string parts of a client's registration: its prefix, and the
/// human it acts on behalf of (`None`: the client may only read).
#[derive(Debug)]
pub struct ActorConfig {
    pub prefix: Option<ClientPrefix>,
    pub on_behalf_of: Option<String>,
}

pub type ActorView = (Option<ClientPrefix>, Option<Seq<char>>);

pub open spec fn opt_string_view(s: Option<String>) -> Option<Seq<char>> {
    match s {
        Some(s) => Some(s@),
        None => None,
    }
}

impl View for ActorConfig {
    type V = ActorView;

    open spec fn view(&self) -> ActorView {
        (self.prefix, opt_string_view(self.on_behalf_of))
    }
}

impl ActorConfig {
    pub fn copy(&self) -> (c: ActorConfig)
        ensures
            c@ == self@,
    {
        ActorConfig {
            prefix: self.prefix,
            on_behalf_of: match &self.on_behalf_of {
                Some(s) => Some(s.clone()),
                None => None,
            },
        }
    }
}

impl Default for ActorConfig {
    /// No prefix, and read-only.
    fn default() -> (c: ActorConfig)
        ensures
            c@ == (None::<ClientPrefix>, None::<Seq<char>>),
    {
        ActorConfig { prefix: None, on_behalf_of: None }
    }
}

/// The text before the client id in an actor string: `<prefix>:`, or
/// nothing.
pub open spec fn prefix_part(prefix: Option<ClientPrefix>) -> Seq<char> {
    match prefix {
        Some(p) => p.spec_text() + seq![':'],
        None => Seq::empty(),
    }
}

/// The actor string a client's changes are recorded under,
/// `<prefix>:<client>:<on-behalf-of>`, or the refusal for a read-only
/// client. A request without an authenticated client id counts as client
/// `unknown`.
pub open spec fn spec_actor(client_id: Option<Seq<char>>, prefix: Option<ClientPrefix>, on_behalf_of: Option<Seq<char>>) -> Result<Seq<char>, Seq<char>> {
    let client = match client_id {
        Some(c) => c,
        None => "unknown"@,
    };
    match on_behalf_of {
        Some(o) => Ok(prefix_part(prefix) + client + seq![':'] + o),
        None => Err("client "@ + prefix_part(prefix) + client + " is read-only (no on-behalf-of configured)"@),
    }
}

/// Builds the actor string of a request; see [`spec_actor`].
pub fn actor_string(client_id: Option<&str>, prefix: Option<Prefix>, on_behalf_of: Option<&OnBehalfOf>) -> (r: Result<String, String>)
    ensures
        match r {
            Ok(s) => spec_actor(
                match client_id {
                    Some(c) => Some(c@),
                    None => None,
                },
                match prefix {
                    Some(p) => Some(p.0),
                    None => None,
                },
                match on_behalf_of {
                    Some(o) => Some(o.0@),
                    None => None,
                },
            ) == Ok::<Seq<char>, Seq<char>>(s@),
            Err(e) => spec_actor(
                match client_id {
                    Some(c) => Some(c@),
                    None => None,
                },
                match prefix {
                    Some(p) => Some(p.0),
                    None => None,
                },
                match on_behalf_of {
                    Some(o) => Some(o.0@),
                    None => None,
                },
            ) == Err::<Seq<char>, Seq<char>>(e@),
        },
{
    proof {
        reveal_strlit("unknown");
        reveal_strlit(":");
        reveal_strlit("client ");
        reveal_strlit(" is read-only (no on-behalf-of configured)");
    }
    let ghost pre = prefix_part(
        match prefix {
            Some(p) => Some(p.0),
            None => None,
        },
    );
    let ghost client = match client_id {
        Some(c) => c@,
        None => "unknown"@,
    };
    let mut head = String::new();
    if let Some(p) = prefix {
        head.append(p.0.as_str());
        head.append(":");
    }
    assert(head@ =~= pre);
    match client_id {
        Some(c) => head.append(c),
        None => head.append("unknown"),
    }
    assert(head@ =~= pre + client);
    match on_behalf_of {
        Some(o) => {
            head.append(":");
            head.append(o.as_str());
            assert(head@ =~= pre + client + seq![':'] + o.0@);
            Ok(head)
        },
        None => {
            let mut e = String::from_str("client ");
            e.append(head.as_str());
            e.append(" is read-only (no on-behalf-of configured)");
            assert(e@ =~= "client "@ + pre + client + " is read-only (no on-behalf-of configured)"@);
            Err(e)
        },
    }
}

// ------------------------------------------------------------------ PKCE

/// The SHA-256 digest of a byte string.
pub uninterp spec fn spec_sha256(data: Seq<u8>) -> Seq<u8>;

/// The character of a six-bit value in the URL-safe base64 alphabet:
/// `A`-`Z`, `a`-`z`, `0`-`9`, `-` and `_`.
pub open spec fn b64_char(v: int) -> char {
    if v < 26 {
        (65 + v) as char
    } else if v < 52 {
        (71 + v) as char
    } else if v < 62 {
        (v - 4) as char
    } else if v == 62 {
        '-'
    } else {
        '_'
    }
}

/// The unpadded URL-safe base64 text of a byte string: every three bytes
/// become four characters of six bits each, most significant first; two
/// bytes left over become three characters and one byte two, the missing
/// low bits taken as zero.
pub open spec fn spec_base64url(data: Seq<u8>) -> Seq<char>
    decreases data.len(),
{
    if data.len() == 0 {
        Seq::empty()
    } else if data.len() == 1 {
        let a = data[0] as int;
        seq![b64_char(a / 4), b64_char((a % 4) * 16)]
    } else if data.len() == 2 {
        let a = data[0] as int;
        let b = data[1] as int;
        seq![b64_char(a / 4), b64_char((a % 4) * 16 + b / 16), b64_char((b % 16) * 4)]
    } else {
        let a = data[0] as int;
        let b = data[1] as int;
        let c = data[2] as int;
        seq![b64_char(a / 4), b64_char((a % 4) * 16 + b / 16), b64_char((b % 16) * 4 + c / 64), b64_char(c % 64)]
            + spec_base64url(data.skip(3))
    }
}

/// `sha2::Sha256::digest`; its result is named.
#[verifier::external_body]
fn sha256(data: &[u8]) -> (d: Vec<u8>)
    ensures
        d@ == spec_sha256(data@),
{
    sha2::Sha256::digest(data).to_vec()
}

/// `base64::engine::general_purpose::URL_SAFE_NO_PAD.encode`: the
/// unpadded URL-safe base64 text of the bytes.
#[verifier::external_body]
fn base64url(data: &[u8]) -> (s: String)
    ensures
        s@ == spec_base64url(data@),
{
    base64::engine::general_purpose::URL_SAFE_NO_PAD.encode(data)
}

/// A PKCE challenge (S256) attached to an authorization code.
#[derive(Debug)]
pub struct PkceChallenge {
    pub challenge: String,
}

/// A verifier matches a challenge when the unpadded URL-safe base64 of the
/// SHA-256 of its UTF-8 bytes is the challenge.
pub open spec fn pkce_matches(challenge: Seq<char>, verifier: Seq<char>) -> bool {
    spec_base64url(spec_sha256(encode_utf8(verifier))) == challenge
}

impl PkceChallenge {
    /// Whether `verifier` hashes to this challenge.
    pub fn verify(&self, verifier: &str) -> (b: bool)
        ensures
            b == pkce_matches(self.challenge@, verifier@),
    {
        let digest = sha256(verifier.as_bytes());
        let computed = base64url(digest.as_slice());
        str_eq(computed.as_str(), self.challenge.as_str())
    }

    pub fn copy(&self) -> (c: PkceChallenge)
        ensures
            c.challenge@ == self.challenge@,
    {
        PkceChallenge { challenge: self.challenge.clone() }
    }
}

// ------------------------------------------------------------ token answer

/// The answer of the token endpoint.
#[derive(Debug)]
pub struct TokenAnswer {
    pub token_type: String,
    pub access_token: String,
    pub expires_in: u64,
    pub refresh_token: String,
}

impl TokenAnswer {
    /// A bearer answer for the given tokens, each in its 32-digit form.
    pub fn new(access_token: u128, refresh_token: u128) -> (t: TokenAnswer)
        ensures
            t.token_type@ == "Bearer"@,
            t.access_token@ == spec_simple(access_token),
            t.expires_in == ACCESS_TOKEN_EXPIRES_IN,
            t.refresh_token@ == spec_simple(refresh_token),
    {
        TokenAnswer {
            token_type: String::from_str("Bearer"),
            access_token: uuid_simple(access_token),
            expires_in: ACCESS_TOKEN_EXPIRES_IN,
            refresh_token: uuid_simple(refresh_token),
        }
    }
}

// ------------------------------------------------------------------ store

/// A client allowed to authenticate, as registered: its name (the OAuth
/// client id), redirect URI (empty for clients without one), secret, and
/// the parts of its actor string.
#[derive(Debug)]
pub struct RegisteredClient {
    pub name: String,
    pub redirect_uri: String,
    pub secret: String,
    pub prefix: Option<ClientPrefix>,
    pub on_behalf_of: Option<String>,
}

/// Name, redirect URI, secret, prefix and on-behalf-of of a client.
pub type ClientView = (Seq<char>, Seq<char>, Seq<char>, Option<ClientPrefix>, Option<Seq<char>>);

pub open spec fn client_view(c: RegisteredClient) -> ClientView {
    (c.name@, c.redirect_uri@, c.secret@, c.prefix, opt_string_view(c.on_behalf_of))
}

pub open spec fn clients_view(cs: Seq<RegisteredClient>) -> Seq<ClientView> {
    cs.map_values(|c: RegisteredClient| client_view(c))
}

/// The registration that counts for a name: the last one with that name.
pub open spec fn last_client(cs: Seq<ClientView>, name: Seq<char>) -> Option<int>
    decreases cs.len(),
{
    if cs.len() == 0 {
        None
    } else if cs.last().0 == name {
        Some(cs.len() - 1)
    } else {
        last_client(cs.drop_last(), name)
    }
}

/// The actor-string parts of a client: those of its registration, or no
/// prefix and read-only when it is not registered.
pub open spec fn spec_actor_config(cs: Seq<ClientView>, name: Seq<char>) -> ActorView {
    match last_client(cs, name) {
        Some(i) => (cs[i].3, cs[i].4),
        None => (None, None),
    }
}

/// What an authorization code or a token grants: the client it was issued
/// to, with its actor-string parts, when, and the PKCE challenge of an
/// authorization code.
#[derive(Debug)]
pub struct Grant {
    pub created_at: Timestamp,
    pub client_id: String,
    pub actor: ActorConfig,
    pub pkce: Option<PkceChallenge>,
}

/// Issue time, client id, actor-string parts and PKCE challenge.
pub type GrantView = (Timestamp, Seq<char>, ActorView, Option<Seq<char>>);

pub open spec fn pkce_view(p: Option<PkceChallenge>) -> Option<Seq<char>> {
    match p {
        Some(p) => Some(p.challenge@),
        None => None,
    }
}

pub open spec fn grant_view(g: Grant) -> GrantView {
    (g.created_at, g.client_id@, g.actor@, pkce_view(g.pkce))
}

/// Whole seconds since `created`, as of `now`, rounded toward zero.
pub open spec fn spec_age(created: Timestamp, now: Timestamp) -> int {
    trunc_div(now.instant() - created.instant(), NANOS_PER_SEC as int)
}

/// A grant issued at `created` has outlived `ttl` seconds by `now`.
pub open spec fn older_than(created: Timestamp, ttl: u64, now: Timestamp) -> bool {
    spec_age(created, now) >= ttl
}

/// The grant `token` names in `m`, if it parses, is there and has not
/// outlived `ttl` seconds by `now`.
pub open spec fn live_grant(m: Map<u128, Grant>, token: Seq<char>, ttl: u64, now: Timestamp) -> Option<Grant> {
    match spec_uuid_parse(token) {
        Some(c) => if m.contains_key(c) && !older_than(m[c].created_at, ttl, now) {
            Some(m[c])
        } else {
            None
        },
        None => None,
    }
}

/// The map after a lookup of `token` that drops it when it is used up:
/// always for an authorization code (`single_use`), else only when it has
/// expired.
pub open spec fn after_lookup(m: Map<u128, Grant>, token: Seq<char>, ttl: u64, now: Timestamp, single_use: bool) -> Map<u128, Grant> {
    match spec_uuid_parse(token) {
        Some(c) => if single_use || (m.contains_key(c) && older_than(m[c].created_at, ttl, now)) {
            m.remove(c)
        } else {
            m
        },
        None => m,
    }
}

/// Every grant in the map has a valid issue time.
pub open spec fn grants_wf(m: Map<u128, Grant>) -> bool {
    forall|c: u128| #[trigger] m.contains_key(c) ==> m[c].created_at.wf()
}

/// `m` is `old` with a new entry `c` for `client` issued at `now`.
pub open spec fn issued(old: Map<u128, Grant>, m: Map<u128, Grant>, c: u128, client: Seq<char>, actor: ActorView, now: Timestamp) -> bool {
    &&& m.contains_key(c)
    &&& grant_view(m[c]) == (now, client, actor, None::<Seq<char>>)
    &&& m.remove(c) == old.remove(c)
}

/// The parts of the server's base URL that its endpoints and metadata use.
#[derive(Debug)]
pub struct BaseUrl {
    /// The URL's origin in ASCII: scheme, host and port (where it is not the
    /// scheme's default), without a trailing slash, e.g.
    /// `https://mcp.example.com`.
    pub origin: String,
    /// The host, where the URL has one.
    pub host: Option<String>,
    /// The port, where the URL names one other than the scheme's default.
    pub port: Option<u16>,
}

/// `host` or `host:port`.
pub open spec fn spec_host_port(host: Seq<char>, port: Option<u16>) -> Seq<char> {
    match port {
        Some(p) => host + seq![':'] + spec_decimal(p as nat),
        None => host,
    }
}

pub fn host_port(host: &str, port: Option<u16>) -> (s: String)
    ensures
        s@ == spec_host_port(host@, port),
{
    let mut s = String::from_str(host);
    if let Some(p) = port {
        s.append(":");
        let d = decimal(p as u64);
        s.append(d.as_str());
        proof {
            reveal_strlit(":");
        }
    }
    s
}

impl BaseUrl {
    /// The `issuer` of the server: its host, with the port where the URL
    /// names one, e.g. `mcp.example.com` or `127.0.0.1:9100`; an empty host
    /// where the URL has none.
    pub open spec fn spec_issuer_host(&self) -> Seq<char> {
        spec_host_port(
            match self.host {
                Some(h) => h@,
                None => Seq::empty(),
            },
            self.port,
        )
    }

    pub fn issuer_host(&self) -> (s: String)
        ensures
            s@ == self.spec_issuer_host(),
    {
        proof {
            reveal_strlit("");
        }
        match &self.host {
            Some(h) => host_port(h.as_str(), self.port),
            None => host_port("", self.port),
        }
    }

    /// The address of the protected-resource metadata of the MCP endpoint.
    pub open spec fn spec_resource_metadata_url(&self) -> Seq<char> {
        self.origin@ + "/.well-known/oauth-protected-resource/mcp"@
    }

    /// The `WWW-Authenticate` value of a refused request: it points the
    /// client at the protected-resource metadata.
    pub fn www_authenticate(&self) -> (s: String)
        ensures
            s@ == "Bearer resource_metadata=\""@ + self.spec_resource_metadata_url() + "\""@,
    {
        proof {
            reveal_strlit("Bearer resource_metadata=\"");
            reveal_strlit("/.well-known/oauth-protected-resource/mcp");
            reveal_strlit("\"");
        }
        let mut s = String::from_str("Bearer resource_metadata=\"");
        s.append(self.origin.as_str());
        s.append("/.well-known/oauth-protected-resource/mcp");
        s.append("\"");
        s
    }

    /// The address of an endpoint of this server: the origin, then `path`.
    pub fn endpoint(&self, path: &str) -> (s: String)
        ensures
            s@ == self.origin@ + path@,
    {
        let mut s = self.origin.clone();
        s.append(path);
        s
    }

    /// The metadata of this server as an authorization server.
    pub fn auth_server_metadata(&self) -> (m: AuthServerMetadata)
        ensures
            m.registration_endpoint@ == self.origin@ + "/register"@,
            m.authorization_endpoint@ == self.origin@ + "/authorize"@,
            m.token_endpoint@ == self.origin@ + "/token"@,
            m.issuer@ == self.spec_issuer_host(),
            m.scopes_supported@.len() == 1 && m.scopes_supported@[0]@ == "MCP"@,
            m.response_types_supported@.len() == 1 && m.response_types_supported@[0]@ == "code"@,
            m.code_challenge_methods_supported@.len() == 1 && m.code_challenge_methods_supported@[0]@ == "S256"@,
    {
        AuthServerMetadata {
            registration_endpoint: self.endpoint("/register"),
            authorization_endpoint: self.endpoint("/authorize"),
            token_endpoint: self.endpoint("/token"),
            issuer: self.issuer_host(),
            scopes_supported: vec![String::from_str("MCP")],
            response_types_supported: vec![String::from_str("code")],
            code_challenge_methods_supported: vec![String::from_str("S256")],
        }
    }

    /// The metadata of the MCP endpoint as a protected resource: this
    /// server authorizes it, and takes the bearer token in a header.
    pub fn protected_resource_metadata(&self) -> (m: ProtectedResourceMetadata)
        ensures
            m.resource@ == self.origin@ + "/mcp"@,
            m.authorization_servers@.len() == 1 && m.authorization_servers@[0]@ == self.origin@,
            m.bearer_methods_supported@.len() == 1 && m.bearer_methods_supported@[0]@ == "header"@,
            m.scopes_supported@.len() == 1 && m.scopes_supported@[0]@ == "MCP"@,
    {
        ProtectedResourceMetadata {
            resource: self.endpoint("/mcp"),
            authorization_servers: vec![self.origin.clone()],
            bearer_methods_supported: vec![String::from_str("header")],
            scopes_supported: vec![String::from_str("MCP")],
        }
    }
}

/// What clients learn of this server as an authorization server.
#[derive(Debug)]
pub struct AuthServerMetadata {
    pub registration_endpoint: String,
    pub authorization_endpoint: String,
    pub token_endpoint: String,
    pub issuer: String,
    pub scopes_supported: Vec<String>,
    pub response_types_supported: Vec<String>,
    pub code_challenge_methods_supported: Vec<String>,
}

/// What clients learn of the MCP endpoint as a protected resource.
#[derive(Debug)]
pub struct ProtectedResourceMetadata {
    pub resource: String,
    pub authorization_servers: Vec<String>,
    pub bearer_methods_supported: Vec<String>,
    pub scopes_supported: Vec<String>,
}

/// Registered clients, and the grants of authorization codes, access
/// tokens and refresh tokens by token.
#[derive(Debug)]
pub struct OAuthStore {
    base_url: BaseUrl,
    clients: Vec<RegisteredClient>,
    auth_codes: HashMap<u128, Grant>,
    access_tokens: HashMap<u128, Grant>,
    refresh_tokens: HashMap<u128, Grant>,
}

impl OAuthStore {
    pub closed spec fn spec_clients(&self) -> Seq<ClientView> {
        clients_view(self.clients@)
    }

    pub closed spec fn spec_auth_codes(&self) -> Map<u128, Grant> {
        self.auth_codes@
    }

    pub closed spec fn spec_access_tokens(&self) -> Map<u128, Grant> {
        self.access_tokens@
    }

    pub closed spec fn spec_refresh_tokens(&self) -> Map<u128, Grant> {
        self.refresh_tokens@
    }

    pub open spec fn wf(&self) -> bool {
        &&& grants_wf(self.spec_auth_codes())
        &&& grants_wf(self.spec_access_tokens())
        &&& grants_wf(self.spec_refresh_tokens())
    }

    pub closed spec fn spec_base_url(&self) -> BaseUrl {
        self.base_url
    }

    /// A store of the server at `base_url` for the given clients, with no
    /// grants yet.
    pub fn new(base_url: BaseUrl, clients: Vec<RegisteredClient>) -> (s: OAuthStore)
        ensures
            s.wf(),
            s.spec_base_url() == base_url,
            s.spec_clients() == clients_view(clients@),
            s.spec_auth_codes() == Map::<u128, Grant>::empty(),
            s.spec_access_tokens() == Map::<u128, Grant>::empty(),
            s.spec_refresh_tokens() == Map::<u128, Grant>::empty(),
    {
        OAuthStore {
            base_url,
            clients,
            auth_codes: HashMap::new(),
            access_tokens: HashMap::new(),
            refresh_tokens: HashMap::new(),
        }
    }

    /// The server's base URL.
    pub fn base_url(&self) -> (b: &BaseUrl)
        ensures
            *b == self.spec_base_url(),
    {
        &self.base_url
    }

    /// The registration that counts for `name`, if any.
    pub fn client_registered(&self, name: &str) -> (c: Option<&RegisteredClient>)
        ensures
            match c {
                Some(c) => last_client(self.spec_clients(), name@) matches Some(i) && client_view(*c) == self.spec_clients()[i],
                None => last_client(self.spec_clients(), name@) is None,
            },
    {
        let mut i = self.clients.len();
        assert(self.spec_clients().take(i as int) =~= self.spec_clients());
        while i > 0
            invariant
                i <= self.clients.len(),
                last_client(self.spec_clients(), name@) == last_client(self.spec_clients().take(i as int), name@),
            decreases i,
        {
            let ghost t = self.spec_clients().take(i as int);
            assert(t.last() == client_view(self.clients@[i - 1]));
            if str_eq(self.clients[i - 1].name.as_str(), name) {
                return Some(&self.clients[i - 1]);
            }
            assert(t.drop_last() =~= self.spec_clients().take(i - 1));
            i -= 1;
        }
        None
    }

    /// The actor-string parts of client `name`; see [`spec_actor_config`].
    pub fn actor_config(&self, name: &str) -> (a: ActorConfig)
        ensures
            a@ == spec_actor_config(self.spec_clients(), name@),
    {
        match self.client_registered(name) {
            Some(c) => ActorConfig {
                prefix: c.prefix,
                on_behalf_of: match &c.on_behalf_of {
                    Some(s) => Some(s.clone()),
                    None => None,
                },
            },
            None => ActorConfig::default(),
        }
    }

    /// Issues a new authorization code (a random version 4 UUID) for
    /// `client_id` at `now`.
    pub fn gen_auth_code_at(&mut self, client_id: &str, pkce: Option<PkceChallenge>, now: Timestamp) -> (code: u128)
        requires
            old(self).wf(),
            now.wf(),
        ensures
            final(self).wf(),
            spec_uuid_version(code) == 4,
            final(self).spec_auth_codes().contains_key(code),
            grant_view(final(self).spec_auth_codes()[code]) == (now, client_id@, spec_actor_config(old(self).spec_clients(), client_id@), pkce_view(pkce)),
            final(self).spec_auth_codes().remove(code) == old(self).spec_auth_codes().remove(code),
            final(self).spec_access_tokens() == old(self).spec_access_tokens(),
            final(self).spec_refresh_tokens() == old(self).spec_refresh_tokens(),
            final(self).spec_clients() == old(self).spec_clients(),
            final(self).spec_base_url() == old(self).spec_base_url(),
    {
        let actor = self.actor_config(client_id);
        let grant = Grant { created_at: now, client_id: String::from_str(client_id), actor, pkce };
        let code = uuid_new_v4();
        self.auth_codes.insert(code, grant);
        assert(self.auth_codes@.remove(code) =~= old(self).auth_codes@.remove(code));
        code
    }

    /// Issues a new access token (random version 4 UUID) and refresh token
    /// (version 7 UUID) for `client_id` at `now`.
    pub fn gen_access_token_at(&mut self, client_id: &str, now: Timestamp) -> (t: TokenAnswer)
        requires
            old(self).wf(),
            now.wf(),
        ensures
            final(self).wf(),
            t.token_type@ == "Bearer"@,
            t.expires_in == ACCESS_TOKEN_EXPIRES_IN,
            exists|a: u128, r: u128|
                #![trigger spec_simple(a), spec_simple(r)]
                t.access_token@ == spec_simple(a) && t.refresh_token@ == spec_simple(r) && spec_uuid_version(a) == 4
                    && spec_uuid_version(r) == 7 && issued(
                    old(self).spec_access_tokens(),
                    final(self).spec_access_tokens(),
                    a,
                    client_id@,
                    spec_actor_config(old(self).spec_clients(), client_id@),
                    now,
                ) && issued(
                    old(self).spec_refresh_tokens(),
                    final(self).spec_refresh_tokens(),
                    r,
                    client_id@,
                    spec_actor_config(old(self).spec_clients(), client_id@),
                    now,
                ),
            final(self).spec_auth_codes() == old(self).spec_auth_codes(),
            final(self).spec_clients() == old(self).spec_clients(),
            final(self).spec_base_url() == old(self).spec_base_url(),
    {
        let access = uuid_new_v4();
        let refresh = uuid_now_v7();
        let a1 = self.actor_config(client_id);
        let a2 = self.actor_config(client_id);
        self.access_tokens.insert(access, Grant { created_at: now, client_id: String::from_str(client_id), actor: a1, pkce: None });
        self.refresh_tokens.insert(refresh, Grant { created_at: now, client_id: String::from_str(client_id), actor: a2, pkce: None });
        assert(self.access_tokens@.remove(access) =~= old(self).access_tokens@.remove(access));
        assert(self.refresh_tokens@.remove(refresh) =~= old(self).refresh_tokens@.remove(refresh));
        let t = TokenAnswer::new(access, refresh);
        assert(t.access_token@ == spec_simple(access) && t.refresh_token@ == spec_simple(refresh));
        t
    }

    /// Looks `token` up in `map`: `None` unless it parses, is there and has
    /// not outlived `ttl`; drops it when `single_use` or expired.
    fn take_grant(map: &mut HashMap<u128, Grant>, token: &str, ttl: u64, now: Timestamp, single_use: bool) -> (g: Option<Grant>)
        requires
            grants_wf(old(map)@),
            now.wf(),
            ttl <= 0x7fff_ffff_ffff_ffff,
        ensures
            grants_wf(final(map)@),
            final(map)@ == after_lookup(old(map)@, token@, ttl, now, single_use),
            match g {
                Some(g) => live_grant(old(map)@, token@, ttl, now) is Some && grant_view(g) == grant_view(
                    live_grant(old(map)@, token@, ttl, now)->Some_0,
                ),
                None => live_grant(old(map)@, token@, ttl, now) is None,
            },
    {
        let code = match uuid_try_parse(token) {
            Some(c) => c,
            None => return None,
        };
        if single_use {
            match map.remove(&code) {
                None => None,
                Some(g) => {
                    assert(old(map)@.contains_key(code));
                    if seconds_between(now, g.created_at) >= ttl as i64 {
                        None
                    } else {
                        Some(g)
                    }
                },
            }
        } else {
            let expired = match map.get(&code) {
                None => return None,
                Some(g) => seconds_between(now, g.created_at) >= ttl as i64,
            };
            if expired {
                map.remove(&code);
                None
            } else {
                match map.get(&code) {
                    Some(g) => Some(copy_grant(g)),
                    None => None,
                }
            }
        }
    }

    /// Redeems an authorization code at `now`: it is dropped whatever the
    /// outcome, and its grant returned if it was issued at most
    /// [`AUTH_CODE_EXPIRES_IN`] seconds ago.
    pub fn validate_auth_code_at(&mut self, code: &str, now: Timestamp) -> (g: Option<Grant>)
        requires
            old(self).wf(),
            now.wf(),
        ensures
            final(self).wf(),
            final(self).spec_auth_codes() == after_lookup(old(self).spec_auth_codes(), code@, AUTH_CODE_EXPIRES_IN, now, true),
            match g {
                Some(g) => grant_view(g) == grant_view(live_grant(old(self).spec_auth_codes(), code@, AUTH_CODE_EXPIRES_IN, now)->Some_0)
                    && live_grant(old(self).spec_auth_codes(), code@, AUTH_CODE_EXPIRES_IN, now) is Some,
                None => live_grant(old(self).spec_auth_codes(), code@, AUTH_CODE_EXPIRES_IN, now) is None,
            },
            final(self).spec_access_tokens() == old(self).spec_access_tokens(),
            final(self).spec_refresh_tokens() == old(self).spec_refresh_tokens(),
            final(self).spec_clients() == old(self).spec_clients(),
            final(self).spec_base_url() == old(self).spec_base_url(),
    {
        Self::take_grant(&mut self.auth_codes, code, AUTH_CODE_EXPIRES_IN, now, true)
    }

    /// Checks an access token at `now`; an expired one is dropped.
    pub fn validate_access_token_at(&mut self, token: &str, now: Timestamp) -> (g: Option<Grant>)
        requires
            old(self).wf(),
            now.wf(),
        ensures
            final(self).wf(),
            final(self).spec_access_tokens() == after_lookup(old(self).spec_access_tokens(), token@, ACCESS_TOKEN_EXPIRES_IN, now, false),
            match g {
                Some(g) => grant_view(g) == grant_view(live_grant(old(self).spec_access_tokens(), token@, ACCESS_TOKEN_EXPIRES_IN, now)->Some_0)
                    && live_grant(old(self).spec_access_tokens(), token@, ACCESS_TOKEN_EXPIRES_IN, now) is Some,
                None => live_grant(old(self).spec_access_tokens(), token@, ACCESS_TOKEN_EXPIRES_IN, now) is None,
            },
            final(self).spec_auth_codes() == old(self).spec_auth_codes(),
            final(self).spec_refresh_tokens() == old(self).spec_refresh_tokens(),
            final(self).spec_clients() == old(self).spec_clients(),
            final(self).spec_base_url() == old(self).spec_base_url(),
    {
        Self::take_grant(&mut self.access_tokens, token, ACCESS_TOKEN_EXPIRES_IN, now, false)
    }

    /// Checks a refresh token at `now`; an expired one is dropped, a valid
    /// one stays usable.
    pub fn validate_refresh_token_at(&mut self, token: &str, now: Timestamp) -> (g: Option<Grant>)
        requires
            old(self).wf(),
            now.wf(),
        ensures
            final(self).wf(),
            final(self).spec_refresh_tokens() == after_lookup(old(self).spec_refresh_tokens(), token@, REFRESH_TOKEN_EXPIRES_IN, now, false),
            match g {
                Some(g) => grant_view(g) == grant_view(live_grant(old(self).spec_refresh_tokens(), token@, REFRESH_TOKEN_EXPIRES_IN, now)->Some_0)
                    && live_grant(old(self).spec_refresh_tokens(), token@, REFRESH_TOKEN_EXPIRES_IN, now) is Some,
                None => live_grant(old(self).spec_refresh_tokens(), token@, REFRESH_TOKEN_EXPIRES_IN, now) is None,
            },
            final(self).spec_auth_codes() == old(self).spec_auth_codes(),
            final(self).spec_access_tokens() == old(self).spec_access_tokens(),
            final(self).spec_clients() == old(self).spec_clients(),
            final(self).spec_base_url() == old(self).spec_base_url(),
    {
        Self::take_grant(&mut self.refresh_tokens, token, REFRESH_TOKEN_EXPIRES_IN, now, false)
    }
}


/// The tokens of `m` whose grants have not outlived `ttl` seconds by `now`.
pub open spec fn live_keys(m: Map<u128, Grant>, ttl: u64, now: Timestamp) -> Set<u128> {
    Set::new(|c: u128| m.contains_key(c) && !older_than(m[c].created_at, ttl, now))
}

/// Drops the grants of `map` that have outlived `ttl` seconds by `now`.
fn sweep(map: &mut HashMap<u128, Grant>, ttl: u64, now: Timestamp)
    requires
        grants_wf(old(map)@),
        now.wf(),
        ttl <= 0x7fff_ffff_ffff_ffff,
    ensures
        grants_wf(final(map)@),
        final(map)@ == old(map)@.restrict(live_keys(old(map)@, ttl, now)),
{
    let ghost m0 = map@;
    let mut keys: Vec<u128> = Vec::new();
    for k in it: map.keys()
        invariant
            m0 == map@,
            keys@ == it.seq().unref().take(it.index() as int),
            it.seq().unref().to_set() == m0.dom(),
            it.seq().unref().no_duplicates(),
            it.index() == it.seq().len() ==> keys@ == it.seq().unref(),
    {
        keys.push(*k);
        assert(keys@ =~= it.seq().unref().take(it.index() + 1));
        assert(it.seq().unref().take(it.seq().len() as int) =~= it.seq().unref());
    }
    assert(keys@.to_set() == m0.dom());
    assert(keys@.no_duplicates());
    let mut i: usize = 0;
    while i < keys.len()
        invariant
            m0.dom() == keys@.to_set(),
            keys@.no_duplicates(),
            grants_wf(m0),
            now.wf(),
            ttl <= 0x7fff_ffff_ffff_ffff,
            i <= keys.len(),
            forall|c: u128|
                #![trigger map@.contains_key(c)]
                map@.contains_key(c) <==> m0.contains_key(c) && (keys@.take(i as int).contains(c) ==> !older_than(
                    m0[c].created_at,
                    ttl,
                    now,
                )),
            forall|c: u128| #![trigger map@[c]] map@.contains_key(c) ==> map@[c] == m0[c],
        decreases keys.len() - i,
    {
        let k = keys[i];
        proof {
            assert(keys@.take(i + 1) =~= keys@.take(i as int).push(k));
            if keys@.take(i as int).contains(k) {
                let j = choose|j: int| 0 <= j < i && keys@.take(i as int)[j] == k;
                assert(keys@[j] == keys@[i as int]);
            }
            assert(keys@.to_set().contains(k));
            assert(map@.contains_key(k));
        }
        let ghost before = map@;
        let expired = match map.get(&k) {
            Some(g) => seconds_between(now, g.created_at) >= ttl as i64,
            None => false,
        };
        if expired {
            map.remove(&k);
        }
        proof {
            assert(expired == older_than(m0[k].created_at, ttl, now));
            assert forall|c: u128|
                #![trigger map@.contains_key(c)]
                map@.contains_key(c) <==> m0.contains_key(c) && (keys@.take(i + 1).contains(c) ==> !older_than(
                    m0[c].created_at,
                    ttl,
                    now,
                )) by {
                if c != k {
                    assert(keys@.take(i + 1).contains(c) <==> keys@.take(i as int).contains(c));
                    assert(map@.contains_key(c) <==> before.contains_key(c));
                } else {
                    assert(keys@.take(i + 1)[i as int] == k);
                    assert(keys@.take(i + 1).contains(k));
                    if expired {
                        assert(map@ == before.remove(k));
                    } else {
                        assert(map@ == before);
                    }
                }
            }
        }
        i += 1;
    }
    proof {
        assert(keys@.take(keys.len() as int) =~= keys@);
        assert(map@ =~= m0.restrict(live_keys(m0, ttl, now)));
    }
}


impl OAuthStore {
    /// Drops the access tokens, authorization codes and refresh tokens that
    /// have expired by `now`.
    pub fn cleanup_at(&mut self, now: Timestamp)
        requires
            old(self).wf(),
            now.wf(),
        ensures
            final(self).wf(),
            final(self).spec_access_tokens() == old(self).spec_access_tokens().restrict(
                live_keys(old(self).spec_access_tokens(), ACCESS_TOKEN_EXPIRES_IN, now),
            ),
            final(self).spec_auth_codes() == old(self).spec_auth_codes().restrict(
                live_keys(old(self).spec_auth_codes(), AUTH_CODE_EXPIRES_IN, now),
            ),
            final(self).spec_refresh_tokens() == old(self).spec_refresh_tokens().restrict(
                live_keys(old(self).spec_refresh_tokens(), REFRESH_TOKEN_EXPIRES_IN, now),
            ),
            final(self).spec_clients() == old(self).spec_clients(),
            final(self).spec_base_url() == old(self).spec_base_url(),
    {
        sweep(&mut self.access_tokens, ACCESS_TOKEN_EXPIRES_IN, now);
        sweep(&mut self.auth_codes, AUTH_CODE_EXPIRES_IN, now);
        sweep(&mut self.refresh_tokens, REFRESH_TOKEN_EXPIRES_IN, now);
    }
}

// -------------------------------------------------------------- requests

/// Why an OAuth request was refused.
#[derive(Clone, Copy, Debug, PartialEq, Eq, Structural)]
pub enum OAuthError {
    UnregisteredClient,
    UnregisteredRedirectUri,
    UnsupportedResponseType,
    UnsupportedChallengeMethod,
    EmptyClientId,
    UnknownClient,
    InvalidSecret,
    InvalidAuthCode,
    InvalidCodeVerifier,
    InvalidRefreshToken,
    UnsupportedGrantType,
}

impl OAuthError {
    /// The OAuth error code.
    pub fn error(&self) -> (s: &'static str)
        ensures
            s@ == match self {
                OAuthError::UnregisteredClient | OAuthError::UnregisteredRedirectUri | OAuthError::UnsupportedResponseType
                | OAuthError::UnsupportedChallengeMethod => "invalid_request"@,
                OAuthError::EmptyClientId | OAuthError::UnknownClient | OAuthError::InvalidSecret => "invalid_client"@,
                OAuthError::InvalidAuthCode | OAuthError::InvalidCodeVerifier | OAuthError::InvalidRefreshToken => "invalid_grant"@,
                OAuthError::UnsupportedGrantType => "unsupported_grant_type"@,
            },
    {
        match self {
            OAuthError::UnregisteredClient | OAuthError::UnregisteredRedirectUri | OAuthError::UnsupportedResponseType
            | OAuthError::UnsupportedChallengeMethod => "invalid_request",
            OAuthError::EmptyClientId | OAuthError::UnknownClient | OAuthError::InvalidSecret => "invalid_client",
            OAuthError::InvalidAuthCode | OAuthError::InvalidCodeVerifier | OAuthError::InvalidRefreshToken => "invalid_grant",
            OAuthError::UnsupportedGrantType => "unsupported_grant_type",
        }
    }

    /// The HTTP status the endpoints answer the refusal with: Bad Request.
    pub fn status(&self) -> (code: u16)
        ensures
            code == 400,
    {
        400
    }

    /// The human-readable description.
    pub fn description(&self) -> (s: &'static str)
        ensures
            s@ == match self {
                OAuthError::UnregisteredClient => "unregistered client id"@,
                OAuthError::UnregisteredRedirectUri => "unregistered redirect uri"@,
                OAuthError::UnsupportedResponseType => "unsupported response type"@,
                OAuthError::UnsupportedChallengeMethod => "only S256 code_challenge_method is supported"@,
                OAuthError::EmptyClientId => "invalid client id"@,
                OAuthError::UnknownClient => "unregistered client id"@,
                OAuthError::InvalidSecret => "invalid secret"@,
                OAuthError::InvalidAuthCode => "invalid authorization code"@,
                OAuthError::InvalidCodeVerifier => "invalid code_verifier"@,
                OAuthError::InvalidRefreshToken => "invalid refresh token"@,
                OAuthError::UnsupportedGrantType => "only authorization_code is supported"@,
            },
    {
        match self {
            OAuthError::UnregisteredClient => "unregistered client id",
            OAuthError::UnregisteredRedirectUri => "unregistered redirect uri",
            OAuthError::UnsupportedResponseType => "unsupported response type",
            OAuthError::UnsupportedChallengeMethod => "only S256 code_challenge_method is supported",
            OAuthError::EmptyClientId => "invalid client id",
            OAuthError::UnknownClient => "unregistered client id",
            OAuthError::InvalidSecret => "invalid secret",
            OAuthError::InvalidAuthCode => "invalid authorization code",
            OAuthError::InvalidCodeVerifier => "invalid code_verifier",
            OAuthError::InvalidRefreshToken => "invalid refresh token",
            OAuthError::UnsupportedGrantType => "only authorization_code is supported",
        }
    }
}

/// The query of an authorization request.
#[derive(Debug)]
pub struct AuthorizeQuery {
    pub response_type: String,
    pub client_id: String,
    pub redirect_uri: String,
    pub scope: Option<String>,
    pub state: Option<String>,
    pub code_challenge: Option<String>,
    pub code_challenge_method: Option<String>,
}

/// What the approval page shows and carries through its form.
#[derive(Debug)]
pub struct AuthorizePage {
    pub client_id: String,
    pub redirect_uri: String,
    pub scope: String,
    pub state: String,
    pub scopes: String,
    pub code_challenge: String,
    pub code_challenge_method: String,
}

pub open spec fn or_empty(s: Option<String>) -> Seq<char> {
    match s {
        Some(s) => s@,
        None => Seq::empty(),
    }
}

/// The refusal of an authorization request, checked in this order: an
/// unregistered client, a redirect URI other than the registered one, a
/// response type other than `code`, a PKCE challenge with a method other
/// than `S256`; or `None` when it may go ahead.
pub open spec fn authorize_refusal(cs: Seq<ClientView>, q: AuthorizeQuery) -> Option<OAuthError> {
    match last_client(cs, q.client_id@) {
        None => Some(OAuthError::UnregisteredClient),
        Some(i) => if cs[i].1 != q.redirect_uri@ {
            Some(OAuthError::UnregisteredRedirectUri)
        } else if q.response_type@ != "code"@ {
            Some(OAuthError::UnsupportedResponseType)
        } else if q.code_challenge is Some && opt_string_view(q.code_challenge_method) != Some("S256"@) {
            Some(OAuthError::UnsupportedChallengeMethod)
        } else {
            None
        },
    }
}

/// The approval page of an accepted request: the query's values, absent
/// ones empty, and the scopes shown as "(no scope)" when none was asked for.
pub open spec fn page_matches(p: AuthorizePage, q: AuthorizeQuery) -> bool {
    &&& p.client_id@ == q.client_id@
    &&& p.redirect_uri@ == q.redirect_uri@
    &&& p.scope@ == or_empty(q.scope)
    &&& p.state@ == or_empty(q.state)
    &&& p.scopes@ == match q.scope {
        Some(s) => s@,
        None => "(no scope)"@,
    }
    &&& p.code_challenge@ == or_empty(q.code_challenge)
    &&& p.code_challenge_method@ == or_empty(q.code_challenge_method)
}

fn text_or_empty(s: &Option<String>) -> (r: String)
    ensures
        r@ == or_empty(*s),
{
    match s {
        Some(s) => s.clone(),
        None => String::new(),
    }
}

impl OAuthStore {
    /// Checks an authorization request; see [`authorize_refusal`] and
    /// [`page_matches`].
    pub fn authorize(&self, q: &AuthorizeQuery) -> (r: Result<AuthorizePage, OAuthError>)
        ensures
            match authorize_refusal(self.spec_clients(), *q) {
                Some(e) => r == Err::<AuthorizePage, OAuthError>(e),
                None => r matches Ok(p) && page_matches(p, *q),
            },
    {
        proof {
            reveal_strlit("code");
            reveal_strlit("S256");
            reveal_strlit("(no scope)");
        }
        let client = match self.client_registered(q.client_id.as_str()) {
            Some(c) => c,
            None => return Err(OAuthError::UnregisteredClient),
        };
        if !str_eq(client.redirect_uri.as_str(), q.redirect_uri.as_str()) {
            return Err(OAuthError::UnregisteredRedirectUri);
        }
        if !str_eq(q.response_type.as_str(), "code") {
            return Err(OAuthError::UnsupportedResponseType);
        }
        if q.code_challenge.is_some() {
            let s256 = match &q.code_challenge_method {
                Some(m) => str_eq(m.as_str(), "S256"),
                None => false,
            };
            if !s256 {
                return Err(OAuthError::UnsupportedChallengeMethod);
            }
        }
        Ok(AuthorizePage {
            client_id: q.client_id.clone(),
            redirect_uri: q.redirect_uri.clone(),
            scope: text_or_empty(&q.scope),
            state: text_or_empty(&q.state),
            scopes: match &q.scope {
                Some(s) => s.clone(),
                None => String::from_str("(no scope)"),
            },
            code_challenge: text_or_empty(&q.code_challenge),
            code_challenge_method: text_or_empty(&q.code_challenge_method),
        })
    }
}

/// The form the approval page posts back.
#[derive(Debug)]
pub struct ApprovalForm {
    pub client_id: String,
    pub redirect_uri: String,
    pub state: String,
    pub approved: String,
    pub code_challenge: String,
    pub code_challenge_method: String,
}

/// `&state=<state>` when a state was sent along, else nothing.
pub open spec fn state_suffix(state: Seq<char>) -> Seq<char> {
    if state.len() == 0 {
        Seq::empty()
    } else {
        "&state="@ + state
    }
}

impl OAuthStore {
    /// Answers the approval form at `now` with the URL to redirect to: on
    /// approval a new authorization code for the client (with the form's
    /// PKCE challenge, if any) goes into `?code=`, otherwise
    /// `?error=access_denied`; the state follows.
    pub fn approve_at(&mut self, form: &ApprovalForm, now: Timestamp) -> (url: String)
        requires
            old(self).wf(),
            now.wf(),
        ensures
            final(self).wf(),
            final(self).spec_clients() == old(self).spec_clients(),
            final(self).spec_base_url() == old(self).spec_base_url(),
            final(self).spec_access_tokens() == old(self).spec_access_tokens(),
            final(self).spec_refresh_tokens() == old(self).spec_refresh_tokens(),
            form.approved@ == "true"@ ==> exists|code: u128|
                #![trigger spec_simple(code)]
                url@ == form.redirect_uri@ + "?code="@ + spec_simple(code) + state_suffix(form.state@)
                    && spec_uuid_version(code) == 4 && final(self).spec_auth_codes().contains_key(code)
                    && grant_view(final(self).spec_auth_codes()[code]) == (
                    now,
                    form.client_id@,
                    spec_actor_config(old(self).spec_clients(), form.client_id@),
                    if form.code_challenge@.len() == 0 {
                        None::<Seq<char>>
                    } else {
                        Some(form.code_challenge@)
                    },
                ) && final(self).spec_auth_codes().remove(code) == old(self).spec_auth_codes().remove(code),
            form.approved@ != "true"@ ==> url@ == form.redirect_uri@ + "?error=access_denied"@ + state_suffix(form.state@)
                && final(self).spec_auth_codes() == old(self).spec_auth_codes(),
    {
        proof {
            reveal_strlit("true");
            reveal_strlit("?code=");
            reveal_strlit("?error=access_denied");
            reveal_strlit("&state=");
        }
        let mut url = form.redirect_uri.clone();
        let ghost code_text: Seq<char>;
        if str_eq(form.approved.as_str(), "true") {
            let pkce = if form.code_challenge.unicode_len() == 0 {
                None
            } else {
                Some(PkceChallenge { challenge: form.code_challenge.clone() })
            };
            let code = self.gen_auth_code_at(form.client_id.as_str(), pkce, now);
            url.append("?code=");
            let text = uuid_simple(code);
            url.append(text.as_str());
            proof {
                code_text = "?code="@ + spec_simple(code);
            }
            assert(url@ =~= form.redirect_uri@ + code_text);
        } else {
            url.append("?error=access_denied");
            proof {
                code_text = "?error=access_denied"@;
            }
        }
        assert(url@ =~= form.redirect_uri@ + code_text);
        if form.state.unicode_len() > 0 {
            url.append("&state=");
            url.append(form.state.as_str());
        }
        assert(url@ =~= form.redirect_uri@ + code_text + state_suffix(form.state@));
        url
    }
}


/// The form of a token request.
#[derive(Debug)]
pub struct TokenRequest {
    pub grant_type: String,
    pub code: String,
    pub client_id: String,
    pub client_secret: String,
    pub redirect_uri: String,
    pub code_verifier: Option<String>,
    pub refresh_token: String,
}

/// The refusal of a token request for its client, checked in this order:
/// an empty client id, an unregistered one, a wrong secret; or `None`.
pub open spec fn client_refusal(cs: Seq<ClientView>, req: TokenRequest) -> Option<OAuthError> {
    if req.client_id@.len() == 0 {
        Some(OAuthError::EmptyClientId)
    } else {
        match last_client(cs, req.client_id@) {
            None => Some(OAuthError::UnknownClient),
            Some(i) => if cs[i].2 != req.client_secret@ {
                Some(OAuthError::InvalidSecret)
            } else {
                None
            },
        }
    }
}

/// The PKCE check of a redeemed code passes: the code has no challenge, or
/// the request brings a verifier that matches it.
pub open spec fn pkce_passes(g: Grant, verifier: Option<String>) -> bool {
    match g.pkce {
        None => true,
        Some(p) => match verifier {
            Some(v) => pkce_matches(p.challenge@, v@),
            None => false,
        },
    }
}

/// `t` answers with a new access token and a new refresh token, each
/// issued for `client` at `now` into the maps.
pub open spec fn tokens_issued(
    old_access: Map<u128, Grant>,
    old_refresh: Map<u128, Grant>,
    access: Map<u128, Grant>,
    refresh: Map<u128, Grant>,
    t: TokenAnswer,
    client: Seq<char>,
    actor: ActorView,
    now: Timestamp,
) -> bool {
    &&& t.token_type@ == "Bearer"@
    &&& t.expires_in == ACCESS_TOKEN_EXPIRES_IN
    &&& exists|a: u128, r: u128|
        #![trigger spec_simple(a), spec_simple(r)]
        t.access_token@ == spec_simple(a) && t.refresh_token@ == spec_simple(r) && spec_uuid_version(a) == 4
            && spec_uuid_version(r) == 7 && issued(old_access, access, a, client, actor, now) && issued(
            old_refresh,
            refresh,
            r,
            client,
            actor,
            now,
        )
}

impl OAuthStore {
    /// Answers a token request at `now`.
    ///
    /// After the client check ([`client_refusal`]), grant type
    /// `authorization_code` redeems the code (dropping it whatever the
    /// outcome) and checks its PKCE challenge; grant type `refresh_token`
    /// checks the refresh token, which stays usable. Either way a good
    /// grant gets a new access token and refresh token for the client it
    /// was issued to. Grant type `client_credentials`, used by machine
    /// clients, gets them for the requesting client itself. Other grant
    /// types are refused.
    pub fn issue_token_at(&mut self, req: &TokenRequest, now: Timestamp) -> (r: Result<TokenAnswer, OAuthError>)
        requires
            old(self).wf(),
            now.wf(),
        ensures
            final(self).wf(),
            final(self).spec_clients() == old(self).spec_clients(),
            final(self).spec_base_url() == old(self).spec_base_url(),
            client_refusal(old(self).spec_clients(), *req) matches Some(e) ==> r == Err::<TokenAnswer, OAuthError>(e)
                && final(self).spec_auth_codes() == old(self).spec_auth_codes()
                && final(self).spec_access_tokens() == old(self).spec_access_tokens()
                && final(self).spec_refresh_tokens() == old(self).spec_refresh_tokens(),
            client_refusal(old(self).spec_clients(), *req) is None && req.grant_type@ == "authorization_code"@ ==> {
                &&& final(self).spec_auth_codes() == after_lookup(old(self).spec_auth_codes(), req.code@, AUTH_CODE_EXPIRES_IN, now, true)
                &&& match live_grant(old(self).spec_auth_codes(), req.code@, AUTH_CODE_EXPIRES_IN, now) {
                    None => r == Err::<TokenAnswer, OAuthError>(OAuthError::InvalidAuthCode)
                        && final(self).spec_access_tokens() == old(self).spec_access_tokens()
                        && final(self).spec_refresh_tokens() == old(self).spec_refresh_tokens(),
                    Some(g) => if !pkce_passes(g, req.code_verifier) {
                        r == Err::<TokenAnswer, OAuthError>(OAuthError::InvalidCodeVerifier)
                            && final(self).spec_access_tokens() == old(self).spec_access_tokens()
                            && final(self).spec_refresh_tokens() == old(self).spec_refresh_tokens()
                    } else {
                        r matches Ok(t) && tokens_issued(
                            old(self).spec_access_tokens(),
                            old(self).spec_refresh_tokens(),
                            final(self).spec_access_tokens(),
                            final(self).spec_refresh_tokens(),
                            t,
                            g.client_id@,
                            spec_actor_config(old(self).spec_clients(), g.client_id@),
                            now,
                        )
                    },
                }
            },
            client_refusal(old(self).spec_clients(), *req) is None && req.grant_type@ == "refresh_token"@ ==> {
                let kept = after_lookup(old(self).spec_refresh_tokens(), req.refresh_token@, REFRESH_TOKEN_EXPIRES_IN, now, false);
                &&& final(self).spec_auth_codes() == old(self).spec_auth_codes()
                &&& match live_grant(old(self).spec_refresh_tokens(), req.refresh_token@, REFRESH_TOKEN_EXPIRES_IN, now) {
                    None => r == Err::<TokenAnswer, OAuthError>(OAuthError::InvalidRefreshToken)
                        && final(self).spec_access_tokens() == old(self).spec_access_tokens()
                        && final(self).spec_refresh_tokens() == kept,
                    Some(g) => r matches Ok(t) && tokens_issued(
                        old(self).spec_access_tokens(),
                        kept,
                        final(self).spec_access_tokens(),
                        final(self).spec_refresh_tokens(),
                        t,
                        g.client_id@,
                        spec_actor_config(old(self).spec_clients(), g.client_id@),
                        now,
                    ),
                }
            },
            client_refusal(old(self).spec_clients(), *req) is None && req.grant_type@ == "client_credentials"@ ==> {
                &&& final(self).spec_auth_codes() == old(self).spec_auth_codes()
                &&& r matches Ok(t) && tokens_issued(
                    old(self).spec_access_tokens(),
                    old(self).spec_refresh_tokens(),
                    final(self).spec_access_tokens(),
                    final(self).spec_refresh_tokens(),
                    t,
                    req.client_id@,
                    spec_actor_config(old(self).spec_clients(), req.client_id@),
                    now,
                )
            },
            client_refusal(old(self).spec_clients(), *req) is None && req.grant_type@ != "authorization_code"@
                && req.grant_type@ != "refresh_token"@ && req.grant_type@ != "client_credentials"@ ==> r == Err::<TokenAnswer, OAuthError>(OAuthError::UnsupportedGrantType)
                && final(self).spec_auth_codes() == old(self).spec_auth_codes()
                && final(self).spec_access_tokens() == old(self).spec_access_tokens()
                && final(self).spec_refresh_tokens() == old(self).spec_refresh_tokens(),
    {
        proof {
            reveal_strlit("authorization_code");
            reveal_strlit("refresh_token");
            reveal_strlit("client_credentials");
            assert("authorization_code"@ != "refresh_token"@) by {
                assert("authorization_code"@.len() != "refresh_token"@.len());
            }
            assert("client_credentials"@ != "refresh_token"@) by {
                assert("client_credentials"@.len() != "refresh_token"@.len());
            }
            assert("client_credentials"@ != "authorization_code"@) by {
                assert("client_credentials"@[1] != "authorization_code"@[1]);
            }
        }
        if req.client_id.unicode_len() == 0 {
            return Err(OAuthError::EmptyClientId);
        }
        match self.client_registered(req.client_id.as_str()) {
            None => {
                return Err(OAuthError::UnknownClient);
            },
            Some(c) => {
                if !str_eq(req.client_secret.as_str(), c.secret.as_str()) {
                    return Err(OAuthError::InvalidSecret);
                }
            },
        }
        if str_eq(req.grant_type.as_str(), "authorization_code") {
            let g = match self.validate_auth_code_at(req.code.as_str(), now) {
                None => return Err(OAuthError::InvalidAuthCode),
                Some(g) => g,
            };
            let verified = match &g.pkce {
                None => true,
                Some(p) => match &req.code_verifier {
                    Some(v) => p.verify(v.as_str()),
                    None => false,
                },
            };
            if !verified {
                return Err(OAuthError::InvalidCodeVerifier);
            }
            Ok(self.gen_access_token_at(g.client_id.as_str(), now))
        } else if str_eq(req.grant_type.as_str(), "refresh_token") {
            let g = match self.validate_refresh_token_at(req.refresh_token.as_str(), now) {
                None => return Err(OAuthError::InvalidRefreshToken),
                Some(g) => g,
            };
            Ok(self.gen_access_token_at(g.client_id.as_str(), now))
        } else if str_eq(req.grant_type.as_str(), "client_credentials") {
            Ok(self.gen_access_token_at(req.client_id.as_str(), now))
        } else {
            Err(OAuthError::UnsupportedGrantType)
        }
    }
}

/// The token of an `Authorization` header value `Bearer <token>`.
pub open spec fn spec_bearer(header: Option<Seq<char>>) -> Option<Seq<char>> {
    match header {
        Some(h) => if h.len() >= 7 && h.take(7) == "Bearer "@ {
            Some(h.skip(7))
        } else {
            None
        },
        None => None,
    }
}

/// Takes the token out of an `Authorization` header value; see
/// [`spec_bearer`].
pub fn bearer_token(header: Option<&str>) -> (t: Option<&str>)
    ensures
        match t {
            Some(t) => spec_bearer(
                match header {
                    Some(h) => Some(h@),
                    None => None,
                },
            ) == Some(t@),
            None => spec_bearer(
                match header {
                    Some(h) => Some(h@),
                    None => None,
                },
            ) is None,
        },
{
    proof {
        reveal_strlit("Bearer ");
    }
    match header {
        None => None,
        Some(h) => {
            let n = h.unicode_len();
            if n < 7 {
                return None;
            }
            let head = h.substring_char(0, 7);
            if str_eq(head, "Bearer ") {
                assert(h@.take(7) =~= head@);
                let rest = h.substring_char(7, n);
                assert(rest@ =~= h@.skip(7));
                Some(rest)
            } else {
                assert(h@.take(7) =~= head@);
                None
            }
        },
    }
}

impl OAuthStore {
    /// Checks the `Authorization` header of a request at `now`: the grant
    /// of its bearer token, if the header holds one and the token is valid.
    pub fn authenticate_at(&mut self, header: Option<&str>, now: Timestamp) -> (g: Option<Grant>)
        requires
            old(self).wf(),
            now.wf(),
        ensures
            final(self).wf(),
            final(self).spec_clients() == old(self).spec_clients(),
            final(self).spec_base_url() == old(self).spec_base_url(),
            final(self).spec_auth_codes() == old(self).spec_auth_codes(),
            final(self).spec_refresh_tokens() == old(self).spec_refresh_tokens(),
            match spec_bearer(
                match header {
                    Some(h) => Some(h@),
                    None => None,
                },
            ) {
                None => g is None && final(self).spec_access_tokens() == old(self).spec_access_tokens(),
                Some(token) => final(self).spec_access_tokens() == after_lookup(
                    old(self).spec_access_tokens(),
                    token,
                    ACCESS_TOKEN_EXPIRES_IN,
                    now,
                    false,
                ) && match g {
                    Some(g) => live_grant(old(self).spec_access_tokens(), token, ACCESS_TOKEN_EXPIRES_IN, now) is Some
                        && grant_view(g) == grant_view(live_grant(old(self).spec_access_tokens(), token, ACCESS_TOKEN_EXPIRES_IN, now)->Some_0),
                    None => live_grant(old(self).spec_access_tokens(), token, ACCESS_TOKEN_EXPIRES_IN, now) is None,
                },
            },
    {
        match bearer_token(header) {
            None => None,
            Some(token) => self.validate_access_token_at(token, now),
        }
    }
}

/// A copy of a grant.
pub fn copy_grant(g: &Grant) -> (c: Grant)
    ensures
        grant_view(c) == grant_view(*g),
{
    Grant {
        created_at: g.created_at,
        client_id: g.client_id.clone(),
        actor: g.actor.copy(),
        pkce: match &g.pkce {
            Some(p) => Some(p.copy()),
            None => None,
        },
    }
}

} // verus!
