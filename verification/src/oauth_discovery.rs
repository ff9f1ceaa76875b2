//! The document that tells clients their ids: audience-keyed, and served only
//! once it has passed validation.

use vstd::prelude::*;
use crate::numbers;
use crate::numbers::decimal_text;
use crate::paths;
use crate::paths::join;
use crate::text;
use crate::text::{concat, concat3, is_blank, quoted, same_text, without_trailing};

verus! {

/// The version of the document that is served.
pub const CURRENT_SCHEMA_VERSION: u32 = 1;

/// Where the document lies below the state directory.
pub const REGISTRY_REL_PATH: &'static str = "security/oauth-clients.toml";

/// Where the trusted issuers lie below the state directory.
pub const ISSUERS_REL_PATH: &'static str = "security/trusted-issuers.toml";

pub const FORGEJO_AUTHORIZE_PATH: &'static str = "/login/oauth/authorize";

pub const FORGEJO_TOKEN_PATH: &'static str = "/login/oauth/access_token";

/// A client application, keyed by the audience of its tokens.
#[derive(Clone, Debug, PartialEq, Eq)]
pub struct OAuthClient {
    pub audience: String,
    pub client_id: String,
    pub redirect_uris: Vec<String>,
    pub scopes: Vec<String>,
}

impl OAuthClient {
    /// A client without redirect URIs and scopes.
    pub fn new(audience: String, client_id: String) -> (r: Self)
        ensures
            r.audience == audience,
            r.client_id == client_id,
            r.redirect_uris@.len() == 0,
            r.scopes@.len() == 0,
    {
        OAuthClient { audience, client_id, redirect_uris: Vec::new(), scopes: Vec::new() }
    }

    /// The client with these redirect URIs.
    pub fn with_redirect_uris(self, uris: Vec<String>) -> (r: Self)
        ensures
            r.redirect_uris == uris,
            r.audience == self.audience,
            r.client_id == self.client_id,
            r.scopes == self.scopes,
    {
        OAuthClient { audience: self.audience, client_id: self.client_id, redirect_uris: uris, scopes: self.scopes }
    }

    /// The client with these scopes.
    pub fn with_scopes(self, scopes: Vec<String>) -> (r: Self)
        ensures
            r.scopes == scopes,
            r.audience == self.audience,
            r.client_id == self.client_id,
            r.redirect_uris == self.redirect_uris,
    {
        OAuthClient { audience: self.audience, client_id: self.client_id, redirect_uris: self.redirect_uris, scopes }
    }
}

/// The document.
#[derive(Clone, Debug, PartialEq, Eq)]
pub struct ClientRegistry {
    pub schema_version: u32,
    pub issuer: String,
    pub authorization_endpoint: String,
    pub token_endpoint: String,
    pub clients: Vec<OAuthClient>,
}

/// The client can be acted on.
pub open spec fn usable(c: OAuthClient) -> bool {
    !text::blank(c.audience@) && !text::blank(c.client_id@)
}

/// The document can be served.
pub open spec fn valid(doc: ClientRegistry) -> bool {
    &&& doc.schema_version == CURRENT_SCHEMA_VERSION
    &&& !text::blank(doc.issuer@)
    &&& !text::blank(doc.authorization_endpoint@)
    &&& !text::blank(doc.token_endpoint@)
    &&& doc.clients@.len() > 0
    &&& forall|i: int| 0 <= i < doc.clients@.len() ==> usable(#[trigger] doc.clients@[i])
}

/// Why no document is served.
#[derive(Clone, Debug)]
pub enum DiscoveryError {
    Io { path: String, reason: String },
    Malformed { path: String, reason: String },
    UnsupportedSchema { found: u32, supported: u32 },
    Degenerate { reason: String },
}

/// What the first unusable client is reported as.
pub open spec fn unusable_reason(audience: Seq<char>) -> Seq<char> {
    "client with empty audience or client_id (audience="@ + text::quoted_of(audience) + ")"@
}

/// The first unusable client stands at `i`.
pub open spec fn first_unusable(clients: Seq<OAuthClient>, i: int) -> bool {
    &&& 0 <= i < clients.len()
    &&& !usable(clients[i])
    &&& forall|k: int| 0 <= k < i ==> usable(#[trigger] clients[k])
}

/// The error tells the first thing that is wrong with a document.
pub open spec fn tells_fault(doc: ClientRegistry, e: DiscoveryError) -> bool {
    if doc.schema_version != CURRENT_SCHEMA_VERSION {
        e == (DiscoveryError::UnsupportedSchema { found: doc.schema_version, supported: CURRENT_SCHEMA_VERSION })
    } else {
        e matches DiscoveryError::Degenerate { reason } && if text::blank(doc.issuer@) {
            reason@ == "empty issuer"@
        } else if text::blank(doc.authorization_endpoint@) || text::blank(doc.token_endpoint@) {
            reason@ == "empty authorization_endpoint or token_endpoint"@
        } else if doc.clients@.len() == 0 {
            reason@ == "no clients declared"@
        } else {
            exists|i: int|
                #[trigger] first_unusable(doc.clients@, i) && reason@ == unusable_reason(doc.clients@[i].audience@)
        }
    }
}

impl ClientRegistry {
    /// A document of the current version.
    pub fn new(issuer: String, authorization_endpoint: String, token_endpoint: String, clients: Vec<OAuthClient>) -> (r:
        Self)
        ensures
            r.schema_version == CURRENT_SCHEMA_VERSION,
            r.issuer == issuer,
            r.authorization_endpoint == authorization_endpoint,
            r.token_endpoint == token_endpoint,
            r.clients == clients,
    {
        ClientRegistry { schema_version: CURRENT_SCHEMA_VERSION, issuer, authorization_endpoint, token_endpoint, clients }
    }

    /// The first client of the audience.
    pub fn lookup(&self, audience: &str) -> (r: Option<&OAuthClient>)
        ensures
            match r {
                Some(c) => is_found(self.clients@, audience@, Some(*c)),
                None => is_found(self.clients@, audience@, None),
            },
    {
        let mut i: usize = 0;
        while i < self.clients.len()
            invariant
                i <= self.clients@.len(),
                forall|k: int| 0 <= k < i ==> (#[trigger] self.clients@[k]).audience@ != audience@,
            decreases self.clients@.len() - i,
        {
            if same_text(self.clients[i].audience.as_str(), audience) {
                assert(self.clients@[i as int].audience@ == audience@);
                return Some(&self.clients[i]);
            }
            i += 1;
        }
        None
    }

    /// Tells whether the document can be served, and if not, the first thing that
    /// is wrong with it: the version, the issuer, an endpoint, the lack of
    /// clients, a client.
    pub fn validate(&self) -> (r: Result<(), DiscoveryError>)
        ensures
            match r {
                Ok(_) => valid(*self),
                Err(e) => !valid(*self) && tells_fault(*self, e),
            },
    {
        if self.schema_version != CURRENT_SCHEMA_VERSION {
            return Err(
                DiscoveryError::UnsupportedSchema { found: self.schema_version, supported: CURRENT_SCHEMA_VERSION },
            );
        }
        if is_blank(self.issuer.as_str()) {
            return Err(DiscoveryError::Degenerate { reason: "empty issuer".to_owned() });
        }
        if is_blank(self.authorization_endpoint.as_str()) || is_blank(self.token_endpoint.as_str()) {
            return Err(
                DiscoveryError::Degenerate { reason: "empty authorization_endpoint or token_endpoint".to_owned() },
            );
        }
        if self.clients.len() == 0 {
            return Err(DiscoveryError::Degenerate { reason: "no clients declared".to_owned() });
        }
        let mut i: usize = 0;
        while i < self.clients.len()
            invariant
                i <= self.clients@.len(),
                forall|k: int| 0 <= k < i ==> usable(#[trigger] self.clients@[k]),
                self.schema_version == CURRENT_SCHEMA_VERSION,
                !text::blank(self.issuer@),
                !text::blank(self.authorization_endpoint@),
                !text::blank(self.token_endpoint@),
                self.clients@.len() > 0,
            decreases self.clients@.len() - i,
        {
            let c = &self.clients[i];
            if is_blank(c.audience.as_str()) || is_blank(c.client_id.as_str()) {
                assert(first_unusable(self.clients@, i as int));
                let shown = quoted(c.audience.as_str());
                return Err(
                    DiscoveryError::Degenerate {
                        reason: concat3(
                            "client with empty audience or client_id (audience=",
                            shown.as_str(),
                            ")",
                        ),
                    },
                );
            }
            i += 1;
        }
        Ok(())
    }
}

impl DiscoveryError {
    /// The error as the operator reads it.
    pub open spec fn text(self) -> Seq<char> {
        match self {
            DiscoveryError::Io { path, reason } => "io reading "@ + path@ + ": "@ + reason@,
            DiscoveryError::Malformed { path, reason } => "malformed oauth-clients registry at "@ + path@ + ": "@ + reason@
                + " — fix or remove the file (fail-closed)"@,
            DiscoveryError::UnsupportedSchema { found, supported } => "oauth-clients registry declares schema_version "@
                + numbers::decimal(found as nat) + ", this build serves "@ + numbers::decimal(supported as nat)
                + " (fail-closed) — re-provision the registry or upgrade the adapter"@,
            DiscoveryError::Degenerate { reason } => "oauth-clients registry is structurally degenerate: "@ + reason@,
        }
    }

    /// The error as the operator reads it.
    pub fn message(&self) -> (r: String)
        ensures
            r@ == self.text(),
    {
        let mut out: String = String::new();
        match self {
            DiscoveryError::Io { path, reason } => {
                out.push_str("io reading ");
                out.push_str(path.as_str());
                out.push_str(": ");
                out.push_str(reason.as_str());
            },
            DiscoveryError::Malformed { path, reason } => {
                out.push_str("malformed oauth-clients registry at ");
                out.push_str(path.as_str());
                out.push_str(": ");
                out.push_str(reason.as_str());
                out.push_str(" — fix or remove the file (fail-closed)");
            },
            DiscoveryError::UnsupportedSchema { found, supported } => {
                out.push_str("oauth-clients registry declares schema_version ");
                let f = decimal_text(*found as u64);
                out.push_str(f.as_str());
                out.push_str(", this build serves ");
                let s = decimal_text(*supported as u64);
                out.push_str(s.as_str());
                out.push_str(" (fail-closed) — re-provision the registry or upgrade the adapter");
            },
            DiscoveryError::Degenerate { reason } => {
                out.push_str("oauth-clients registry is structurally degenerate: ");
                out.push_str(reason.as_str());
            },
        }
        assert(out@ =~= self.text());
        out
    }
}

// ---------------------------------------------------------------------------
// Derivation
// ---------------------------------------------------------------------------

/// An issuer whose tokens are trusted, for these audiences.
#[derive(Clone, Debug)]
pub struct TrustedIssuer {
    pub iss: String,
    pub jwks_uri: Option<String>,
    pub audiences: Vec<String>,
}

/// The issuers whose tokens are accepted, in the order of their file.
#[derive(Clone, Debug)]
pub struct TrustedIssuers {
    pub issuers: Vec<TrustedIssuer>,
}

/// The texts that are not blank, in order.
pub open spec fn non_blank(s: Seq<Seq<char>>) -> Seq<Seq<char>>
    decreases s.len(),
{
    if s.len() == 0 {
        Seq::empty()
    } else if text::blank(s.last()) {
        non_blank(s.drop_last())
    } else {
        non_blank(s.drop_last()).push(s.last())
    }
}

/// The issuer has a name and an audience.
pub open spec fn bears_audience(i: TrustedIssuer) -> bool {
    !text::blank(i.iss@) && non_blank(text::views(i.audiences@)).len() > 0
}

fn usable_audiences(audiences: &Vec<String>) -> (r: Vec<String>)
    ensures
        text::views(r@) == non_blank(text::views(audiences@)),
{
    let ghost all = text::views(audiences@);
    let mut out: Vec<String> = Vec::new();
    let mut i: usize = 0;
    assert(all.take(0) =~= Seq::<Seq<char>>::empty());
    assert(text::views(out@) =~= non_blank(all.take(0)));
    while i < audiences.len()
        invariant
            i <= audiences@.len(),
            all == text::views(audiences@),
            text::views(out@) == non_blank(all.take(i as int)),
        decreases audiences@.len() - i,
    {
        let ghost before = text::views(out@);
        proof {
            assert(all.take(i + 1).drop_last() =~= all.take(i as int));
            assert(all.take(i + 1).last() == audiences@[i as int]@);
        }
        if !is_blank(audiences[i].as_str()) {
            out.push(audiences[i].clone());
            assert(text::views(out@) =~= before.push(audiences@[i as int]@));
        }
        i += 1;
    }
    assert(all.take(i as int) =~= all);
    out
}

/// An issuer and a path, with one `/` between them.
pub open spec fn endpoint(issuer: Seq<char>, path: Seq<char>) -> Seq<char> {
    text::trim_end_char(issuer, '/') + path
}

fn join_endpoint(issuer: &str, path: &str) -> (r: String)
    ensures
        r@ == endpoint(issuer@, path@),
{
    let base = without_trailing(issuer, '/');
    concat(base.as_str(), path)
}

/// The document says what this issuer stands for: its endpoints, and one client
/// for each of its audiences whose id is the audience.
pub open spec fn stands_for(doc: ClientRegistry, i: TrustedIssuer) -> bool {
    let audiences = non_blank(text::views(i.audiences@));
    &&& doc.schema_version == CURRENT_SCHEMA_VERSION
    &&& doc.issuer@ == i.iss@
    &&& doc.authorization_endpoint@ == endpoint(i.iss@, "/login/oauth/authorize"@)
    &&& doc.token_endpoint@ == endpoint(i.iss@, "/login/oauth/access_token"@)
    &&& doc.clients@.len() == audiences.len()
    &&& forall|k: int|
        #![trigger doc.clients@[k]]
        0 <= k < doc.clients@.len() ==> {
            &&& doc.clients@[k].audience@ == audiences[k]
            &&& doc.clients@[k].client_id@ == audiences[k]
            &&& doc.clients@[k].redirect_uris@.len() == 0
            &&& doc.clients@[k].scopes@.len() == 0
        }
}

/// The first issuer that has a name and an audience stands at `i`.
pub open spec fn first_bearing(issuers: Seq<TrustedIssuer>, i: int) -> bool {
    &&& 0 <= i < issuers.len()
    &&& bears_audience(issuers[i])
    &&& forall|k: int| 0 <= k < i ==> !bears_audience(#[trigger] issuers[k])
}

/// The document that the trusted issuers stand for: that of the first with a name
/// and an audience; none where there is none.
pub fn derive_from_trusted_issuers(issuers: &TrustedIssuers) -> (r: Option<ClientRegistry>)
    ensures
        match r {
            Some(doc) => exists|i: int| #[trigger] first_bearing(issuers.issuers@, i) && stands_for(doc, issuers.issuers@[i]),
            None => forall|k: int| 0 <= k < issuers.issuers@.len() ==> !bears_audience(#[trigger] issuers.issuers@[k]),
        },
{
    let mut i: usize = 0;
    while i < issuers.issuers.len()
        invariant
            i <= issuers.issuers@.len(),
            forall|k: int| 0 <= k < i ==> !bears_audience(#[trigger] issuers.issuers@[k]),
        decreases issuers.issuers@.len() - i,
    {
        let issuer = &issuers.issuers[i];
        let audiences = usable_audiences(&issuer.audiences);
        assert(text::views(audiences@).len() == audiences@.len());
        if !is_blank(issuer.iss.as_str()) && audiences.len() > 0 {
            let mut clients: Vec<OAuthClient> = Vec::new();
            let mut k: usize = 0;
            while k < audiences.len()
                invariant
                    k <= audiences@.len(),
                    clients@.len() == k,
                    forall|j: int|
                        #![trigger clients@[j]]
                        0 <= j < k ==> {
                            &&& clients@[j].audience@ == audiences@[j]@
                            &&& clients@[j].client_id@ == audiences@[j]@
                            &&& clients@[j].redirect_uris@.len() == 0
                            &&& clients@[j].scopes@.len() == 0
                        },
                decreases audiences@.len() - k,
            {
                clients.push(OAuthClient::new(audiences[k].clone(), audiences[k].clone()));
                k += 1;
            }
            let doc = ClientRegistry::new(
                issuer.iss.clone(),
                join_endpoint(issuer.iss.as_str(), FORGEJO_AUTHORIZE_PATH),
                join_endpoint(issuer.iss.as_str(), FORGEJO_TOKEN_PATH),
                clients,
            );
            assert(first_bearing(issuers.issuers@, i as int));
            return Some(doc);
        }
        i += 1;
    }
    None
}

/// How many issuers have a name and an audience. Where it is more than one, the
/// derived document leaves the others out.
pub fn audience_bearing(issuers: &TrustedIssuers) -> (r: usize)
    ensures
        r == bearing_count(issuers.issuers@),
{
    let mut n: usize = 0;
    let mut i: usize = 0;
    assert(issuers.issuers@.take(0) =~= Seq::<TrustedIssuer>::empty());
    while i < issuers.issuers.len()
        invariant
            i <= issuers.issuers@.len(),
            n <= i,
            n == bearing_count(issuers.issuers@.take(i as int)),
        decreases issuers.issuers@.len() - i,
    {
        let issuer = &issuers.issuers[i];
        let audiences = usable_audiences(&issuer.audiences);
        proof {
            assert(text::views(audiences@).len() == audiences@.len());
            assert(issuers.issuers@.take(i + 1).drop_last() =~= issuers.issuers@.take(i as int));
            assert(issuers.issuers@.take(i + 1).last() == issuers.issuers@[i as int]);
        }
        if !is_blank(issuer.iss.as_str()) && audiences.len() > 0 {
            n += 1;
        }
        i += 1;
    }
    assert(issuers.issuers@.take(i as int) =~= issuers.issuers@);
    n
}

pub open spec fn bearing_count(issuers: Seq<TrustedIssuer>) -> nat
    decreases issuers.len(),
{
    if issuers.len() == 0 {
        0
    } else {
        bearing_count(issuers.drop_last()) + if bears_audience(issuers.last()) {
            1nat
        } else {
            0nat
        }
    }
}

// ---------------------------------------------------------------------------
// Loading
// ---------------------------------------------------------------------------

/// What a read of the document's file found.
#[derive(Clone, Debug)]
pub enum RegistryFile {
    Missing,
    Unreadable { reason: String },
    Malformed { reason: String },
    Read(ClientRegistry),
}

/// The document to serve: that of its own file where there is one, else the one
/// that the trusted issuers stand for; either only where it is valid.
pub fn load_registry(state_dir: &str, file: RegistryFile, issuers: &Result<TrustedIssuers, String>) -> (r: Result<
    Option<ClientRegistry>,
    DiscoveryError,
>)
    ensures
        r matches Ok(Some(doc)) ==> valid(doc),
        match file {
            RegistryFile::Read(doc) => match r {
                Ok(found) => valid(doc) && found == Some(doc),
                Err(e) => !valid(doc) && tells_fault(doc, e),
            },
            RegistryFile::Malformed { reason } => r matches Err(DiscoveryError::Malformed { path, reason: why })
                && path@ == paths::joined(state_dir@, "security/oauth-clients.toml"@) && why == reason,
            RegistryFile::Unreadable { reason } => r matches Err(DiscoveryError::Io { path, reason: why }) && path@
                == paths::joined(state_dir@, "security/oauth-clients.toml"@) && why == reason,
            RegistryFile::Missing => match *issuers {
                Err(reason) => r matches Err(DiscoveryError::Io { path, reason: why }) && path@ == paths::joined(
                    state_dir@,
                    "security/trusted-issuers.toml"@,
                ) && why@ == reason@,
                Ok(known) => match r {
                    Ok(Some(doc)) => exists|i: int| #[trigger] first_bearing(known.issuers@, i) && stands_for(
                        doc,
                        known.issuers@[i],
                    ),
                    Ok(None) => forall|k: int| 0 <= k < known.issuers@.len() ==> !bears_audience(#[trigger] known.issuers@[k]),
                    Err(_) => false,
                },
            },
        },
{
    match file {
        RegistryFile::Read(doc) => match doc.validate() {
            Ok(_) => Ok(Some(doc)),
            Err(e) => Err(e),
        },
        RegistryFile::Malformed { reason } => Err(
            DiscoveryError::Malformed { path: join(state_dir, REGISTRY_REL_PATH), reason },
        ),
        RegistryFile::Unreadable { reason } => Err(DiscoveryError::Io { path: join(state_dir, REGISTRY_REL_PATH), reason }),
        RegistryFile::Missing => match issuers {
            Err(reason) => Err(DiscoveryError::Io { path: join(state_dir, ISSUERS_REL_PATH), reason: reason.clone() }),
            Ok(known) => match derive_from_trusted_issuers(known) {
                None => Ok(None),
                Some(doc) => {
                    proof {
                        let i = choose|i: int| #[trigger] first_bearing(known.issuers@, i) && stands_for(doc, known.issuers@[i]);
                        law_derived_documents_are_valid(doc, known.issuers@[i]);
                    }
                    match doc.validate() {
                        Ok(_) => Ok(Some(doc)),
                        Err(e) => Err(e),
                    }
                },
            },
        },
    }
}

// ---------------------------------------------------------------------------
// Laws
// ---------------------------------------------------------------------------

proof fn lemma_not_blank(s: Seq<char>)
    requires
        s.len() > 0,
        !text::is_white_space(s.last()),
    ensures
        !text::blank(s),
    decreases s.len(),
{
    if text::is_white_space(s[0]) {
        assert(s.skip(1).last() == s.last());
        lemma_not_blank(s.skip(1));
    }
}

proof fn lemma_non_blank(s: Seq<Seq<char>>, k: int)
    requires
        0 <= k < non_blank(s).len(),
    ensures
        !text::blank(non_blank(s)[k]),
    decreases s.len(),
{
    if s.len() > 0 {
        let rest = non_blank(s.drop_last());
        if k < rest.len() {
            lemma_non_blank(s.drop_last(), k);
        }
    }
}

/// A document that stands for an issuer with a name and an audience can always be
/// served.
pub proof fn law_derived_documents_are_valid(doc: ClientRegistry, i: TrustedIssuer)
    requires
        bears_audience(i),
        stands_for(doc, i),
    ensures
        valid(doc),
{
    reveal_strlit("/login/oauth/authorize");
    reveal_strlit("/login/oauth/access_token");
    lemma_not_blank(doc.authorization_endpoint@);
    lemma_not_blank(doc.token_endpoint@);
    let audiences = non_blank(text::views(i.audiences@));
    assert forall|k: int| 0 <= k < doc.clients@.len() implies usable(#[trigger] doc.clients@[k]) by {
        lemma_non_blank(text::views(i.audiences@), k);
    }
}

/// The client is what a lookup of the audience finds: the first that bears it.
pub open spec fn is_found(clients: Seq<OAuthClient>, audience: Seq<char>, c: Option<OAuthClient>) -> bool {
    match c {
        Some(client) => exists|i: int|
            {
                &&& 0 <= i < clients.len()
                &&& #[trigger] clients[i] == client
                &&& client.audience@ == audience
                &&& forall|k: int| 0 <= k < i ==> (#[trigger] clients[k]).audience@ != audience
            },
        None => forall|k: int| 0 <= k < clients.len() ==> (#[trigger] clients[k]).audience@ != audience,
    }
}

/// Every audience has one client.
pub open spec fn one_client_per_audience(clients: Seq<OAuthClient>) -> bool {
    forall|a: int, b: int|
        0 <= a < b < clients.len() ==> (#[trigger] clients[a]).audience@ != (#[trigger] clients[b]).audience@
}

/// A lookup is by audience and never by place: the same clients in another order
/// answer every lookup alike, where every audience has one client.
pub proof fn law_lookup_is_not_positional(
    a: Seq<OAuthClient>,
    b: Seq<OAuthClient>,
    audience: Seq<char>,
    x: Option<OAuthClient>,
    y: Option<OAuthClient>,
)
    requires
        a.to_multiset() == b.to_multiset(),
        one_client_per_audience(a),
        is_found(a, audience, x),
        is_found(b, audience, y),
    ensures
        x == y,
{
    broadcast use vstd::seq_lib::group_to_multiset_ensures;

    if let Some(c) = y {
        let j = choose|j: int| 0 <= j < b.len() && #[trigger] b[j] == c;
        assert(b.contains(c));
        assert(a.to_multiset().count(c) > 0);
        assert(a.contains(c));
        let i = choose|i: int| 0 <= i < a.len() && a[i] == c;
        assert(a[i].audience@ == audience);
        if let Some(d) = x {
            let k = choose|k: int| 0 <= k < a.len() && #[trigger] a[k] == d;
            assert(a[k].audience@ == audience);
            assert(i == k);
        }
    } else if let Some(d) = x {
        let k = choose|k: int| 0 <= k < a.len() && #[trigger] a[k] == d;
        assert(a.contains(d));
        assert(b.to_multiset().count(d) > 0);
        assert(b.contains(d));
        let j = choose|j: int| 0 <= j < b.len() && b[j] == d;
        assert(b[j].audience@ == audience);
    }
}

/// A client can be used where it has an audience and an id that say something.
pub proof fn law_usable_clients(c: OAuthClient)
    ensures
        text::blank(c.audience@) || text::blank(c.client_id@) ==> !usable(c),
        !text::blank(c.audience@) && !text::blank(c.client_id@) ==> usable(c),
{
}

/// A document is served exactly where it is of the first schema, names its issuer and
/// both endpoints, and declares clients that can all be used.
pub proof fn law_served_documents(doc: ClientRegistry)
    ensures
        valid(doc) <==> doc.schema_version == 1 && !text::blank(doc.issuer@) && !text::blank(doc.authorization_endpoint@)
            && !text::blank(doc.token_endpoint@) && doc.clients@.len() > 0 && (forall|i: int|
            0 <= i < doc.clients@.len() ==> usable(#[trigger] doc.clients@[i])),
        CURRENT_SCHEMA_VERSION == 1,
{
}

/// What is wrong with a document is told by the first fault: its schema, its issuer,
/// an endpoint, that it has no clients, or the first client that cannot be used.
pub proof fn law_faults_of_documents(doc: ClientRegistry, e: DiscoveryError)
    requires
        tells_fault(doc, e),
    ensures
        doc.schema_version != 1 ==> e == (DiscoveryError::UnsupportedSchema { found: doc.schema_version, supported: 1 }),
        doc.schema_version == 1 ==> e is Degenerate,
        doc.schema_version == 1 && text::blank(doc.issuer@) ==> e->Degenerate_reason@ == "empty issuer"@,
        doc.schema_version == 1 && !text::blank(doc.issuer@) && (text::blank(doc.authorization_endpoint@) || text::blank(
            doc.token_endpoint@,
        )) ==> e->Degenerate_reason@ == "empty authorization_endpoint or token_endpoint"@,
        doc.schema_version == 1 && !text::blank(doc.issuer@) && !text::blank(doc.authorization_endpoint@) && !text::blank(
            doc.token_endpoint@,
        ) && doc.clients@.len() == 0 ==> e->Degenerate_reason@ == "no clients declared"@,
        doc.schema_version == 1 && !text::blank(doc.issuer@) && !text::blank(doc.authorization_endpoint@) && !text::blank(
            doc.token_endpoint@,
        ) && doc.clients@.len() > 0 ==> exists|i: int|
            0 <= i < doc.clients@.len() && !usable(#[trigger] doc.clients@[i]) && (forall|k: int|
                0 <= k < i ==> usable(#[trigger] doc.clients@[k])) && e->Degenerate_reason@
                == "client with empty audience or client_id (audience="@ + text::quoted_of(doc.clients@[i].audience@) + ")"@,
{
    if doc.schema_version == 1 && !text::blank(doc.issuer@) && !text::blank(doc.authorization_endpoint@) && !text::blank(
        doc.token_endpoint@,
    ) && doc.clients@.len() > 0 {
        let i = choose|i: int|
            #[trigger] first_unusable(doc.clients@, i) && e->Degenerate_reason@ == unusable_reason(
                doc.clients@[i].audience@,
            );
        assert(!usable(doc.clients@[i]));
    }
}

/// What an operator reads of each fault.
pub proof fn law_fault_texts(e: DiscoveryError)
    ensures
        e matches DiscoveryError::Io { path, reason } ==> e.text() == "io reading "@ + path@ + ": "@ + reason@,
        e matches DiscoveryError::Malformed { path, reason } ==> e.text() == "malformed oauth-clients registry at "@ + path@
            + ": "@ + reason@ + " — fix or remove the file (fail-closed)"@,
        e matches DiscoveryError::UnsupportedSchema { found, supported } ==> e.text()
            == "oauth-clients registry declares schema_version "@ + numbers::decimal(found as nat) + ", this build serves "@
            + numbers::decimal(supported as nat)
            + " (fail-closed) — re-provision the registry or upgrade the adapter"@,
        e matches DiscoveryError::Degenerate { reason } ==> e.text()
            == "oauth-clients registry is structurally degenerate: "@ + reason@,
{
}

/// Blank audiences are passed over; the others keep their order.
pub proof fn law_blank_audiences(s: Seq<Seq<char>>, t: Seq<char>)
    ensures
        non_blank(Seq::empty()).len() == 0,
        text::blank(t) ==> non_blank(s.push(t)) == non_blank(s),
        !text::blank(t) ==> non_blank(s.push(t)) == non_blank(s).push(t),
{
    assert(s.push(t).drop_last() =~= s);
}

/// An issuer stands for a document where it has a name and an audience; the endpoints
/// lie below its name, with one slash between, also where the name ends in slashes.
pub proof fn law_endpoints(issuer: Seq<char>, path: Seq<char>, i: TrustedIssuer)
    ensures
        endpoint(issuer.push('/'), path) == endpoint(issuer, path),
        issuer.len() == 0 || issuer.last() != '/' ==> endpoint(issuer, path) == issuer + path,
        bears_audience(i) <==> !text::blank(i.iss@) && non_blank(text::views(i.audiences@)).len() > 0,
{
    text::law_trimming_a_character(issuer, '/');
}

/// The document of an issuer has the issuer's name, its two endpoints, and for each of
/// its audiences a client whose id is the audience, in order.
pub proof fn law_documents_of_issuers(doc: ClientRegistry, i: TrustedIssuer, k: int)
    requires
        stands_for(doc, i),
    ensures
        doc.schema_version == 1,
        doc.issuer@ == i.iss@,
        doc.authorization_endpoint@ == endpoint(i.iss@, "/login/oauth/authorize"@),
        doc.token_endpoint@ == endpoint(i.iss@, "/login/oauth/access_token"@),
        doc.clients@.len() == non_blank(text::views(i.audiences@)).len(),
        0 <= k < doc.clients@.len() ==> doc.clients@[k].audience@ == non_blank(text::views(i.audiences@))[k]
            && doc.clients@[k].client_id@ == doc.clients@[k].audience@ && doc.clients@[k].redirect_uris@.len() == 0
            && doc.clients@[k].scopes@.len() == 0,
{
}

/// The first issuer that stands for one is taken, and each such issuer counts once.
pub proof fn law_first_issuer(issuers: Seq<TrustedIssuer>, i: int, one: TrustedIssuer)
    ensures
        first_bearing(issuers, i) <==> 0 <= i < issuers.len() && bears_audience(issuers[i]) && (forall|k: int|
            0 <= k < i ==> !bears_audience(#[trigger] issuers[k])),
        bearing_count(Seq::empty()) == 0,
        bears_audience(one) ==> bearing_count(issuers.push(one)) == bearing_count(issuers) + 1,
        !bears_audience(one) ==> bearing_count(issuers.push(one)) == bearing_count(issuers),
{
    assert(issuers.push(one).drop_last() =~= issuers);
}

/// A lookup finds the first client of the audience, and none where no client has it.
pub proof fn law_clients_are_found(clients: Seq<OAuthClient>, audience: Seq<char>, c: OAuthClient)
    ensures
        is_found(clients, audience, Some(c)) <==> exists|i: int|
            0 <= i < clients.len() && #[trigger] clients[i] == c && c.audience@ == audience && (forall|k: int|
                0 <= k < i ==> (#[trigger] clients[k]).audience@ != audience),
        is_found(clients, audience, None) <==> forall|k: int|
            0 <= k < clients.len() ==> (#[trigger] clients[k]).audience@ != audience,
{
    if is_found(clients, audience, Some(c)) {
        let i = choose|i: int|
            {
                &&& 0 <= i < clients.len()
                &&& #[trigger] clients[i] == c
                &&& c.audience@ == audience
                &&& forall|k: int| 0 <= k < i ==> (#[trigger] clients[k]).audience@ != audience
            };
        assert(clients[i] == c);
    }
}

} // verus!
