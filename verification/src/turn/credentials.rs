//! Short-lived TURN credentials, one set per browser session.

use vstd::prelude::*;

pub use crate::clock::unix_time;

use crate::clock::is_clock_reading;
use crate::config::WebrtcConfig;
use crate::ids::{
    hyphenated, is_version_4, law_uuid_texts_differ, random_uuid, simple, uuid_digits, uuid_text,
};
use crate::list::views;
use crate::text::{
    concat3, decimal, decimal_string, has_prefix, law_decimal_reads_back, same_text, starts_with,
};
use crate::ws::messages::opt_text;

verus! {

/// One entry of the browser's ICE server list.
#[derive(Debug, Clone)]
pub struct IceServer {
    pub urls: String,
    pub username: Option<String>,
    pub credential: Option<String>,
}

/// The ICE servers of a session and when its credential runs out, in seconds
/// since 1970.
#[derive(Debug, Clone)]
pub struct IceConfig {
    pub ice_servers: Vec<IceServer>,
    pub expires_at: Option<u64>,
}

/// What an [`IceServer`] says.
pub struct IceServerView {
    pub urls: Seq<char>,
    pub username: Option<Seq<char>>,
    pub credential: Option<Seq<char>>,
}

/// What an [`IceConfig`] says.
pub struct IceConfigView {
    pub ice_servers: Seq<IceServerView>,
    pub expires_at: Option<u64>,
}

impl View for IceServer {
    type V = IceServerView;

    open spec fn view(&self) -> IceServerView {
        IceServerView {
            urls: self.urls@,
            username: opt_text(self.username),
            credential: opt_text(self.credential),
        }
    }
}

impl View for IceConfig {
    type V = IceConfigView;

    open spec fn view(&self) -> IceConfigView {
        IceConfigView {
            ice_servers: views(self.ice_servers@),
            expires_at: self.expires_at,
        }
    }
}

/// The STUN servers in a browser's list, where there is no TURN service: one for
/// each URL, without credentials and without an end.
pub open spec fn stun_config_of(urls: Seq<Seq<char>>) -> IceConfigView {
    IceConfigView {
        ice_servers: urls.map_values(
            |url: Seq<char>| IceServerView { urls: url, username: None, credential: None },
        ),
        expires_at: None,
    }
}

/// What the browser is told where there is no TURN service: the configured STUN
/// servers.
pub fn stun_config(config: &WebrtcConfig) -> (r: IceConfig)
    ensures
        r@ == stun_config_of(views(config.stun_servers@)),
{
    let mut ice_servers: Vec<IceServer> = Vec::new();
    let mut i: usize = 0;
    let ghost all = stun_config_of(views(config.stun_servers@)).ice_servers;
    while i < config.stun_servers.len()
        invariant
            i <= config.stun_servers@.len(),
            all == stun_config_of(views(config.stun_servers@)).ice_servers,
            all.len() == config.stun_servers@.len(),
            views(ice_servers@) == all.take(i as int),
        decreases config.stun_servers@.len() - i,
    {
        let ghost before = views(ice_servers@);
        let server = IceServer {
            urls: config.stun_servers[i].clone(),
            username: None,
            credential: None,
        };
        assert(server@ == all[i as int]);
        ice_servers.push(server);
        assert(views(ice_servers@) =~= before.push(server@));
        assert(all.take(i + 1) =~= before.push(server@));
        i = i + 1;
    }
    assert(all.take(i as int) =~= all);
    IceConfig { ice_servers, expires_at: None }
}

// Secrets

/// The key that `turn::auth::generate_auth_key` derives.
pub uninterp spec fn auth_key(username: Seq<char>, realm: Seq<char>, password: Seq<char>) -> Seq<
    u8,
>;

/// `turn::auth::generate_auth_key` gives a digest of its three arguments, and
/// of nothing else. Which bytes it has is not said.
#[verifier::external_body]
fn generate_auth_key(username: &str, realm: &str, password: &str) -> (r: Vec<u8>)
    ensures
        r@ == auth_key(username@, realm@, password@),
{
    turn::auth::generate_auth_key(username, realm, password)
}

/// What is random about a new credential.
#[derive(Debug, Clone, Copy)]
pub struct Nonce {
    pub name: u128,
    pub secret: (u128, u128),
}

impl Nonce {
    /// Whether each number is marked as a UUID of version 4.
    pub open spec fn is_marked(self) -> bool {
        is_version_4(self.name) && is_version_4(self.secret.0) && is_version_4(self.secret.1)
    }

    /// New random numbers, each marked as a UUID of version 4.
    pub fn random() -> (r: Nonce)
        ensures
            r.is_marked(),
    {
        Nonce { name: random_uuid(), secret: (random_uuid(), random_uuid()) }
    }
}

// Credentials

/// How long a credential must still be good for to be handed out again, in
/// seconds.
pub const REUSE_SECS: u64 = 90;

struct Credential {
    session: String,
    username: String,
    password: String,
    key: Vec<u8>,
    expires_at: u64,
}

/// The credentials of all sessions. Times are in seconds since 1970.
pub struct Credentials {
    realm: String,
    ttl: u64,
    entries: Vec<Credential>,
}

/// Why a TURN request is refused.
#[derive(Debug, Clone, Copy, PartialEq, Eq, Structural)]
pub enum AuthError {
    InvalidRealm,
    UnknownCredential,
}

impl AuthError {
    pub open spec fn text(self) -> Seq<char> {
        match self {
            AuthError::InvalidRealm => "invalid realm"@,
            AuthError::UnknownCredential => "expired or unknown session credential"@,
        }
    }

    /// The error in words.
    pub fn message(&self) -> (r: String)
        ensures
            r@ == self.text(),
    {
        match self {
            AuthError::InvalidRealm => "invalid realm".to_owned(),
            AuthError::UnknownCredential => "expired or unknown session credential".to_owned(),
        }
    }
}

/// What is known of a username.
pub struct CredentialView {
    pub session: Seq<char>,
    pub password: Seq<char>,
    pub key: Seq<u8>,
    pub expires_at: u64,
}

/// What a [`Credentials`] holds: the credentials by username.
#[verifier::ext_equal]
pub struct CredentialsView {
    pub realm: Seq<char>,
    pub ttl: u64,
    pub entries: Map<Seq<char>, CredentialView>,
}

/// Whether every key belongs to its username and password.
pub open spec fn keys_fit(c: CredentialsView) -> bool {
    forall|u: Seq<char>| #[trigger]
        c.entries.dom().contains(u) ==> c.entries[u].key == auth_key(
            u,
            c.realm,
            c.entries[u].password,
        )
}

spec fn credential_view(c: Credential) -> CredentialView {
    CredentialView {
        session: c.session@,
        password: c.password@,
        key: c.key@,
        expires_at: c.expires_at,
    }
}

/// The credentials by username.
spec fn by_username(s: Seq<Credential>) -> Map<Seq<char>, CredentialView>
    decreases s.len(),
{
    if s.len() == 0 {
        Map::empty()
    } else {
        by_username(s.drop_last()).insert(s.last().username@, credential_view(s.last()))
    }
}

/// Whether no username occurs twice.
spec fn distinct(s: Seq<Credential>) -> bool
    decreases s.len(),
{
    s.len() > 0 ==> distinct(s.drop_last()) && !by_username(s.drop_last()).dom().contains(
        s.last().username@,
    )
}

impl View for Credentials {
    type V = CredentialsView;

    closed spec fn view(&self) -> CredentialsView {
        CredentialsView {
            realm: self.realm@,
            ttl: self.ttl,
            entries: by_username(self.entries@),
        }
    }
}

/// The credentials that are good after `now`.
pub open spec fn unexpired(m: Map<Seq<char>, CredentialView>, now: u64) -> Map<
    Seq<char>,
    CredentialView,
> {
    Map::new(|u: Seq<char>| m.dom().contains(u) && m[u].expires_at > now, |u: Seq<char>| m[u])
}

/// The credentials of the other sessions.
pub open spec fn of_others(m: Map<Seq<char>, CredentialView>, session: Seq<char>) -> Map<
    Seq<char>,
    CredentialView,
> {
    Map::new(|u: Seq<char>| m.dom().contains(u) && m[u].session != session, |u: Seq<char>| m[u])
}

/// Whether `u` is a username of the session that is good for long enough to be
/// handed out again.
pub open spec fn is_reusable(
    m: Map<Seq<char>, CredentialView>,
    session: Seq<char>,
    now: u64,
    u: Seq<char>,
) -> bool {
    m.dom().contains(u) && m[u].session == session && m[u].expires_at > now + REUSE_SECS
}

/// The username of a credential: when it runs out, and a random part.
pub open spec fn new_username(expires_at: nat, name: u128) -> Seq<char> {
    decimal(expires_at) + seq![':'] + uuid_text(name)
}

pub open spec fn new_password(secret: (u128, u128)) -> Seq<char> {
    uuid_digits(secret.0) + uuid_digits(secret.1)
}

/// A credential made at `now`.
pub open spec fn new_credential(
    c: CredentialsView,
    session: Seq<char>,
    now: u64,
    nonce: Nonce,
) -> CredentialView {
    let username = new_username((now + c.ttl) as nat, nonce.name);
    let password = new_password(nonce.secret);
    CredentialView {
        session,
        password,
        key: auth_key(username, c.realm, password),
        expires_at: (now + c.ttl) as u64,
    }
}

/// What the browser is told: the username and the password go with the TURN
/// servers only.
pub open spec fn ice_config_of(urls: Seq<Seq<char>>, u: Seq<char>, c: CredentialView) -> IceConfigView {
    IceConfigView {
        ice_servers: urls.map_values(|url: Seq<char>| ice_server_of(url, u, c)),
        expires_at: Some(c.expires_at),
    }
}

pub open spec fn ice_server_of(url: Seq<char>, u: Seq<char>, c: CredentialView) -> IceServerView {
    if has_prefix(url, "turn"@) {
        IceServerView { urls: url, username: Some(u), credential: Some(c.password) }
    } else {
        IceServerView { urls: url, username: None, credential: None }
    }
}

/// The credentials after a request. Expired credentials go; where the session
/// has none that is good for long enough, a new one is made.
pub open spec fn after_request(
    before: CredentialsView,
    session: Seq<char>,
    now: u64,
    nonce: Nonce,
) -> CredentialsView {
    let kept = unexpired(before.entries, now);
    if exists|u: Seq<char>| is_reusable(kept, session, now, u) {
        CredentialsView { entries: kept, ..before }
    } else {
        CredentialsView {
            entries: kept.insert(
                new_username((now + before.ttl) as nat, nonce.name),
                new_credential(before, session, now, nonce),
            ),
            ..before
        }
    }
}

/// Whether a request may be answered with the username `u`: one of the session
/// that is good for long enough or, where there is none, the new one.
pub open spec fn is_handed_out(
    before: CredentialsView,
    session: Seq<char>,
    now: u64,
    nonce: Nonce,
    u: Seq<char>,
) -> bool {
    let kept = unexpired(before.entries, now);
    if exists|w: Seq<char>| is_reusable(kept, session, now, w) {
        is_reusable(kept, session, now, u)
    } else {
        u == new_username((now + before.ttl) as nat, nonce.name)
    }
}

/// Whether `after` and `config` are what a request for credentials makes of
/// `before`.
pub open spec fn is_issued(
    before: CredentialsView,
    session: Seq<char>,
    urls: Seq<Seq<char>>,
    now: u64,
    nonce: Nonce,
    after: CredentialsView,
    config: IceConfigView,
) -> bool {
    &&& after == after_request(before, session, now, nonce)
    &&& exists|u: Seq<char>|
        is_handed_out(before, session, now, nonce, u) && config == #[trigger] ice_config_of(
            urls,
            u,
            after.entries[u],
        )
}

/// Whether the times of a credential made at `now` fit into 64 bits.
pub open spec fn has_room(ttl: u64, now: u64) -> bool {
    now + ttl <= u64::MAX && now + REUSE_SECS <= u64::MAX
}

/// What a TURN request is answered: the key of a known username that has not
/// expired, in the right realm.
pub open spec fn authenticated(
    c: CredentialsView,
    username: Seq<char>,
    realm: Seq<char>,
    now: u64,
) -> Result<Seq<u8>, AuthError> {
    if realm != c.realm {
        Err(AuthError::InvalidRealm)
    } else if c.entries.dom().contains(username) && c.entries[username].expires_at > now {
        Ok(c.entries[username].key)
    } else {
        Err(AuthError::UnknownCredential)
    }
}

/// Whether `b` holds everything that `a` holds.
spec fn is_part(a: Map<Seq<char>, CredentialView>, b: Map<Seq<char>, CredentialView>) -> bool {
    forall|u: Seq<char>| #[trigger]
        a.dom().contains(u) ==> b.dom().contains(u) && a[u] == b[u]
}

/// Which credentials go.
enum Rule<'a> {
    Expired { now: u64 },
    Session(&'a str),
    Username(&'a str),
}

impl<'a> Rule<'a> {
    spec fn names(self, u: Seq<char>, c: CredentialView) -> bool {
        match self {
            Rule::Expired { now } => c.expires_at <= now,
            Rule::Session(session) => c.session == session@,
            Rule::Username(username) => u == username@,
        }
    }

    fn applies(&self, c: &Credential) -> (r: bool)
        ensures
            r == self.names(c.username@, credential_view(*c)),
    {
        match self {
            Rule::Expired { now } => c.expires_at <= *now,
            Rule::Session(session) => same_text(c.session.as_str(), session),
            Rule::Username(username) => same_text(c.username.as_str(), username),
        }
    }
}

/// The credentials that the rule does not name.
spec fn spared(m: Map<Seq<char>, CredentialView>, rule: Rule) -> Map<Seq<char>, CredentialView> {
    Map::new(|u: Seq<char>| m.dom().contains(u) && !rule.names(u, m[u]), |u: Seq<char>| m[u])
}

proof fn lemma_push(s: Seq<Credential>, c: Credential)
    ensures
        by_username(s.push(c)) == by_username(s).insert(c.username@, credential_view(c)),
        distinct(s.push(c)) == (distinct(s) && !by_username(s).dom().contains(c.username@)),
{
    assert(s.push(c).drop_last() =~= s);
}

/// What stands in the list is in the map.
proof fn lemma_at(s: Seq<Credential>, i: int)
    requires
        distinct(s),
        0 <= i < s.len(),
    ensures
        by_username(s).dom().contains(s[i].username@),
        by_username(s)[s[i].username@] == credential_view(s[i]),
    decreases s.len(),
{
    if i < s.len() - 1 {
        lemma_at(s.drop_last(), i);
    }
}

proof fn lemma_distinct(s: Seq<Credential>, i: int, j: int)
    requires
        distinct(s),
        0 <= i < j < s.len(),
    ensures
        s[i].username@ != s[j].username@,
    decreases s.len(),
{
    if j == s.len() - 1 {
        lemma_at(s.drop_last(), i);
    } else {
        lemma_distinct(s.drop_last(), i, j);
    }
}

/// What is in the map stands in the list.
proof fn lemma_in(s: Seq<Credential>, u: Seq<char>) -> (i: int)
    requires
        by_username(s).dom().contains(u),
    ensures
        0 <= i < s.len(),
        s[i].username@ == u,
        by_username(s)[u] == credential_view(s[i]),
    decreases s.len(),
{
    if s.last().username@ == u {
        s.len() - 1
    } else {
        lemma_in(s.drop_last(), u)
    }
}

/// The entry for one ICE server.
fn ice_server(url: &String, c: &Credential) -> (r: IceServer)
    ensures
        r@ == ice_server_of(url@, c.username@, credential_view(*c)),
{
    if starts_with(url.as_str(), "turn") {
        IceServer {
            urls: url.clone(),
            username: Some(c.username.clone()),
            credential: Some(c.password.clone()),
        }
    } else {
        IceServer { urls: url.clone(), username: None, credential: None }
    }
}

/// What the browser is told of a credential.
fn ice_config(urls: &[String], c: &Credential) -> (r: IceConfig)
    ensures
        r@ == ice_config_of(views(urls@), c.username@, credential_view(*c)),
{
    let mut ice_servers: Vec<IceServer> = Vec::new();
    let mut i: usize = 0;
    let ghost all = ice_config_of(views(urls@), c.username@, credential_view(*c)).ice_servers;
    while i < urls.len()
        invariant
            i <= urls@.len(),
            all == ice_config_of(views(urls@), c.username@, credential_view(*c)).ice_servers,
            all.len() == urls@.len(),
            views(ice_servers@) == all.take(i as int),
        decreases urls@.len() - i,
    {
        let ghost before = views(ice_servers@);
        let server = ice_server(&urls[i], c);
        assert(server@ == all[i as int]);
        ice_servers.push(server);
        assert(views(ice_servers@) =~= before.push(server@));
        assert(all.take(i + 1) =~= before.push(server@));
        i = i + 1;
    }
    assert(all.take(i as int) =~= all);
    IceConfig { ice_servers, expires_at: Some(c.expires_at) }
}

impl Credentials {
    /// Whether no username occurs twice.
    pub closed spec fn has_distinct_names(self) -> bool {
        distinct(self.entries@)
    }

    /// Whether no username occurs twice and every key belongs to its username
    /// and password.
    pub open spec fn wf(self) -> bool {
        self.has_distinct_names() && keys_fit(self@)
    }

    /// No credentials; each that is issued will be good for `ttl` seconds.
    pub fn new(realm: String, ttl: u64) -> (r: Credentials)
        ensures
            r.wf(),
            r@.realm == realm@,
            r@.ttl == ttl,
            r@.entries == Map::<Seq<char>, CredentialView>::empty(),
    {
        let r = Credentials { realm, ttl, entries: Vec::new() };
        assert(by_username(r.entries@) =~= Map::<Seq<char>, CredentialView>::empty());
        r
    }

    /// Forgets the credentials that `rule` names.
    fn forget(&mut self, rule: &Rule)
        requires
            old(self).wf(),
        ensures
            final(self).wf(),
            final(self)@ == (CredentialsView {
                entries: spared(old(self)@.entries, *rule),
                ..old(self)@
            }),
    {
        let ghost before = *self;
        let mut kept: Vec<Credential> = Vec::new();
        while self.entries.len() > 0
            invariant
                self.realm == before.realm,
                self.ttl == before.ttl,
                distinct(self.entries@),
                distinct(kept@),
                is_part(by_username(self.entries@), before@.entries),
                forall|u: Seq<char>| #[trigger]
                    by_username(kept@).dom().contains(u) <==> spared(
                        before@.entries,
                        *rule,
                    ).dom().contains(u) && !by_username(self.entries@).dom().contains(u),
                is_part(by_username(kept@), before@.entries),
            decreases self.entries@.len(),
        {
            let ghost all = self.entries@;
            if let Some(c) = self.entries.pop() {
                proof {
                    let rest = by_username(self.entries@);
                    assert(all.drop_last() =~= self.entries@);
                    assert(by_username(all) == rest.insert(c.username@, credential_view(c)));
                    assert(by_username(all).dom().contains(c.username@));
                    assert(before@.entries[c.username@] == credential_view(c));
                    assert forall|u: Seq<char>| #[trigger] rest.dom().contains(
                        u,
                    ) implies before@.entries.dom().contains(u) && rest[u]
                        == before@.entries[u] by {
                        assert(by_username(all).dom().contains(u));
                    }
                    lemma_push(kept@, c);
                }
                if !rule.applies(&c) {
                    kept.push(c);
                }
            }
        }
        assert(by_username(kept@) =~= spared(before@.entries, *rule));
        self.entries = kept;
    }

    /// The place of a credential of the session that is good for long enough.
    fn reusable(&self, session: &str, now: u64) -> (r: Option<usize>)
        requires
            self.wf(),
            now + REUSE_SECS <= u64::MAX,
        ensures
            match r {
                Some(i) => i < self.entries@.len() && is_reusable(
                    self@.entries,
                    session@,
                    now,
                    self.entries@[i as int].username@,
                ) && self@.entries[self.entries@[i as int].username@] == credential_view(
                    self.entries@[i as int],
                ),
                None => forall|u: Seq<char>| !is_reusable(self@.entries, session@, now, u),
            },
    {
        let mut i: usize = 0;
        while i < self.entries.len()
            invariant
                self.wf(),
                now + REUSE_SECS <= u64::MAX,
                i <= self.entries@.len(),
                forall|j: int|
                    0 <= j < i ==> !(#[trigger] self.entries@[j].session@ == session@
                        && self.entries@[j].expires_at > now + REUSE_SECS),
            decreases self.entries@.len() - i,
        {
            let c = &self.entries[i];
            if same_text(c.session.as_str(), session) && c.expires_at > now + REUSE_SECS {
                proof {
                    lemma_at(self.entries@, i as int);
                }
                return Some(i);
            }
            i = i + 1;
        }
        assert forall|u: Seq<char>| !is_reusable(self@.entries, session@, now, u) by {
            if is_reusable(self@.entries, session@, now, u) {
                let j = lemma_in(self.entries@, u);
            }
        }
        None
    }

    /// Hands out a credential to a session, for the servers `urls`. `nonce` is
    /// what makes a new credential hard to guess; it is used only where one is
    /// made.
    pub fn issue_with(&mut self, session: &str, urls: &[String], now: u64, nonce: Nonce) -> (r:
        IceConfig)
        requires
            old(self).wf(),
            has_room(old(self)@.ttl, now),
        ensures
            final(self).wf(),
            is_issued(old(self)@, session@, views(urls@), now, nonce, final(self)@, r@),
    {
        let ghost before = self@;
        let ghost kept = unexpired(before.entries, now);
        self.forget(&Rule::Expired { now });
        assert(self@.entries =~= kept);
        if let Some(i) = self.reusable(session, now) {
            let r = ice_config(urls, &self.entries[i]);
            proof {
                let u = self.entries@[i as int].username@;
                assert(is_reusable(kept, session@, now, u));
                assert(r@ == ice_config_of(views(urls@), u, self@.entries[u]));
            }
            return r;
        }
        let expires_at: u64 = now + self.ttl;
        let username = concat3(
            decimal_string(expires_at).as_str(),
            ":",
            hyphenated(nonce.name).as_str(),
        );
        proof {
            reveal_strlit(":");
            assert(":"@ =~= seq![':']);
        }
        let mut password = simple(nonce.secret.0);
        password.append(simple(nonce.secret.1).as_str());
        let c = Credential {
            session: session.to_owned(),
            key: generate_auth_key(username.as_str(), self.realm.as_str(), password.as_str()),
            username,
            password,
            expires_at,
        };
        let r = ice_config(urls, &c);
        self.forget(&Rule::Username(c.username.as_str()));
        proof {
            lemma_push(self.entries@, c);
        }
        self.entries.push(c);
        proof {
            assert(self@.entries =~= kept.insert(c.username@, credential_view(c)));
            assert(is_handed_out(before, session@, now, nonce, c.username@));
            assert(r@ == ice_config_of(views(urls@), c.username@, self@.entries[c.username@]));
        }
        r
    }

    /// Hands out a credential to a session at the time `now`, a new one with
    /// new random numbers.
    pub fn issue_at(&mut self, session: &str, urls: &[String], now: u64) -> (r: IceConfig)
        requires
            old(self).wf(),
            has_room(old(self)@.ttl, now),
        ensures
            final(self).wf(),
            exists|nonce: Nonce|
                nonce.is_marked() && #[trigger] is_issued(
                    old(self)@,
                    session@,
                    views(urls@),
                    now,
                    nonce,
                    final(self)@,
                    r@,
                ),
    {
        self.issue_with(session, urls, now, Nonce::random())
    }

    /// Hands out a credential to a session at the time `now`. `None`, and nothing
    /// is changed, exactly where `now` leaves no room for the time at which the
    /// credential would run out.
    pub fn issue_if_room(&mut self, session: &str, urls: &[String], now: u64) -> (r: Option<
        IceConfig,
    >)
        requires
            old(self).wf(),
        ensures
            final(self).wf(),
            r is None <==> !has_room(old(self)@.ttl, now),
            match r {
                Some(config) => exists|nonce: Nonce|
                    nonce.is_marked() && #[trigger] is_issued(
                        old(self)@,
                        session@,
                        views(urls@),
                        now,
                        nonce,
                        final(self)@,
                        config@,
                    ),
                None => final(self)@ == old(self)@,
            },
    {
        if now > u64::MAX - self.ttl || now > u64::MAX - REUSE_SECS {
            return None;
        }
        Some(self.issue_at(session, urls, now))
    }

    /// Hands out a credential to a session, by the system's clock. `None`, and
    /// nothing is changed, where the clock leaves no room for the time at which
    /// the credential would run out.
    pub fn issue(&mut self, session: &str, urls: &[String]) -> (r: Option<IceConfig>)
        requires
            old(self).wf(),
        ensures
            final(self).wf(),
            match r {
                Some(config) => exists|now: u64, nonce: Nonce|
                    is_clock_reading(now) && has_room(old(self)@.ttl, now) && nonce.is_marked()
                        && #[trigger] is_issued(
                        old(self)@,
                        session@,
                        views(urls@),
                        now,
                        nonce,
                        final(self)@,
                        config@,
                    ),
                None => final(self)@ == old(self)@ && exists|now: u64|
                    is_clock_reading(now) && !#[trigger] has_room(old(self)@.ttl, now),
            },
    {
        let now: u64 = unix_time();
        self.issue_if_room(session, urls, now)
    }

    /// Takes every credential of a session back and names them, in no
    /// particular order.
    pub fn revoke(&mut self, session: &str) -> (r: Vec<String>)
        requires
            old(self).wf(),
        ensures
            final(self).wf(),
            final(self)@ == (CredentialsView {
                entries: of_others(old(self)@.entries, session@),
                ..old(self)@
            }),
            views(r@).no_duplicates(),
            forall|u: Seq<char>| #[trigger]
                views(r@).contains(u) <==> old(self)@.entries.dom().contains(u)
                    && old(self)@.entries[u].session == session@,
    {
        let mut r: Vec<String> = Vec::new();
        let mut i: usize = 0;
        let ghost all = self.entries@;
        while i < self.entries.len()
            invariant
                self.wf(),
                all == self.entries@,
                i <= all.len(),
                views(r@).no_duplicates(),
                forall|u: Seq<char>| #[trigger]
                    views(r@).contains(u) <==> exists|j: int|
                        0 <= j < i && #[trigger] all[j].username@ == u && all[j].session@
                            == session@,
            decreases all.len() - i,
        {
            let ghost before = views(r@);
            let c = &self.entries[i];
            if same_text(c.session.as_str(), session) {
                let username = c.username.clone();
                proof {
                    assert forall|j: int| 0 <= j < i implies #[trigger] all[j].username@
                        != username@ by {
                        lemma_distinct(all, j, i as int);
                    }
                    assert(!before.contains(username@));
                }
                r.push(username);
                assert(views(r@) =~= before.push(username@));
                assert forall|u: Seq<char>| #[trigger]
                    views(r@).contains(u) <==> before.contains(u) || u == username@ by {
                    if before.contains(u) {
                        let k = choose|k: int| 0 <= k < before.len() && before[k] == u;
                        assert(views(r@)[k] == u);
                    }
                    if u == username@ {
                        assert(views(r@)[before.len() as int] == u);
                    }
                }
            }
            i = i + 1;
        }
        proof {
            assert forall|u: Seq<char>| #[trigger]
                views(r@).contains(u) <==> self@.entries.dom().contains(u)
                    && self@.entries[u].session == session@ by {
                if views(r@).contains(u) {
                    let j = choose|j: int|
                        0 <= j < i && #[trigger] all[j].username@ == u && all[j].session@
                            == session@;
                    lemma_at(all, j);
                }
                if self@.entries.dom().contains(u) {
                    let j = lemma_in(all, u);
                }
            }
        }
        self.forget(&Rule::Session(session));
        assert(self@.entries =~= of_others(old(self)@.entries, session@));
        r
    }

    /// The key of `username` at the time `now`, or why there is none.
    pub fn authenticate_at(&self, username: &str, realm: &str, now: u64) -> (r: Result<
        Vec<u8>,
        AuthError,
    >)
        requires
            self.wf(),
        ensures
            match r {
                Ok(key) => authenticated(self@, username@, realm@, now) == Ok::<_, AuthError>(
                    key@,
                ),
                Err(e) => authenticated(self@, username@, realm@, now) == Err::<Seq<u8>, _>(e),
            },
    {
        if !same_text(realm, self.realm.as_str()) {
            return Err(AuthError::InvalidRealm);
        }
        let mut i: usize = 0;
        while i < self.entries.len()
            invariant
                self.wf(),
                realm@ == self.realm@,
                i <= self.entries@.len(),
                forall|j: int| 0 <= j < i ==> #[trigger] self.entries@[j].username@ != username@,
            decreases self.entries@.len() - i,
        {
            let c = &self.entries[i];
            if same_text(c.username.as_str(), username) {
                proof {
                    lemma_at(self.entries@, i as int);
                }
                return if c.expires_at > now {
                    Ok(c.key.clone())
                } else {
                    Err(AuthError::UnknownCredential)
                };
            }
            i = i + 1;
        }
        proof {
            if self@.entries.dom().contains(username@) {
                let j = lemma_in(self.entries@, username@);
            }
        }
        Err(AuthError::UnknownCredential)
    }

    /// The key of `username` by the system's clock, or why there is none.
    pub fn auth_handle(&self, username: &str, realm: &str) -> (r: Result<Vec<u8>, AuthError>)
        requires
            self.wf(),
        ensures
            realm@ != self@.realm ==> r == Err::<Vec<u8>, _>(AuthError::InvalidRealm),
            exists|now: u64|
                is_clock_reading(now) && match r {
                    Ok(key) => #[trigger] authenticated(self@, username@, realm@, now) == Ok::<
                        _,
                        AuthError,
                    >(key@),
                    Err(e) => authenticated(self@, username@, realm@, now) == Err::<Seq<u8>, _>(e),
                },
    {
        let now: u64 = unix_time();
        self.authenticate_at(username, realm, now)
    }
}

// Laws

/// Whether `config` hands out the username `u`, with the password that is
/// known for it.
pub open spec fn hands_out(
    config: IceConfigView,
    urls: Seq<Seq<char>>,
    after: CredentialsView,
    u: Seq<char>,
) -> bool {
    after.entries.dom().contains(u) && config == ice_config_of(urls, u, after.entries[u])
}

/// What is handed out is good: until it runs out, and no longer, the username
/// is answered with the key that belongs to it and its password. It belongs to
/// the session that asked, and lasts for the full time or, where it was handed
/// out before, for longer than [`REUSE_SECS`].
pub proof fn law_issued_credential_is_good(
    before: CredentialsView,
    session: Seq<char>,
    urls: Seq<Seq<char>>,
    now: u64,
    nonce: Nonce,
    after: CredentialsView,
    config: IceConfigView,
)
    requires
        keys_fit(before),
        has_room(before.ttl, now),
        is_issued(before, session, urls, now, nonce, after, config),
    ensures
        exists|u: Seq<char>|
            {
                let c = after.entries[u];
                &&& #[trigger] hands_out(config, urls, after, u)
                &&& c.session == session
                &&& c.expires_at == now + before.ttl || c.expires_at > now + REUSE_SECS
                &&& forall|t: u64|
                    #![trigger authenticated(after, u, before.realm, t)]
                    {
                        let answer = authenticated(after, u, before.realm, t);
                        if t < c.expires_at {
                            answer == Ok::<_, AuthError>(auth_key(u, before.realm, c.password))
                        } else {
                            answer == Err::<Seq<u8>, _>(AuthError::UnknownCredential)
                        }
                    }
            },
{
    let u = choose|u: Seq<char>|
        is_handed_out(before, session, now, nonce, u) && config == #[trigger] ice_config_of(
            urls,
            u,
            after.entries[u],
        );
    lemma_handed_out(before, session, now, nonce, u);
    assert(hands_out(config, urls, after, u));
}

/// What is handed out is there, belongs to the session, and is good.
proof fn lemma_handed_out(
    before: CredentialsView,
    session: Seq<char>,
    now: u64,
    nonce: Nonce,
    u: Seq<char>,
)
    requires
        has_room(before.ttl, now),
        is_handed_out(before, session, now, nonce, u),
    ensures
        ({
            let after = after_request(before, session, now, nonce);
            let c = after.entries[u];
            &&& after.entries.dom().contains(u)
            &&& c.session == session
            &&& c.expires_at == now + before.ttl || c.expires_at > now + REUSE_SECS
            &&& keys_fit(before) ==> c.key == auth_key(u, before.realm, c.password)
        }),
{
    let kept = unexpired(before.entries, now);
    if exists|w: Seq<char>| is_reusable(kept, session, now, w) {
        assert(before.entries.dom().contains(u));
    }
}

/// A request leaves every other credential that is still good as it was: those
/// of other sessions, and the earlier one of the same session. The one that it
/// makes, if it makes one, takes the place of another with the same username.
pub proof fn law_earlier_credentials_stay(
    before: CredentialsView,
    session: Seq<char>,
    urls: Seq<Seq<char>>,
    now: u64,
    nonce: Nonce,
    after: CredentialsView,
    config: IceConfigView,
    u: Seq<char>,
)
    requires
        is_issued(before, session, urls, now, nonce, after, config),
        before.entries.dom().contains(u),
        before.entries[u].expires_at > now,
        u != new_username((now + before.ttl) as nat, nonce.name) || exists|v: Seq<char>|
            is_reusable(unexpired(before.entries, now), session, now, v),
    ensures
        after.entries.dom().contains(u),
        after.entries[u] == before.entries[u],
{
}

/// Asking again hands out what is there: where the session has a credential
/// that is good for long enough, a request makes no new one.
pub proof fn law_repeated_requests_do_not_grow(
    before: CredentialsView,
    session: Seq<char>,
    urls: Seq<Seq<char>>,
    now: u64,
    nonce: Nonce,
    after: CredentialsView,
    config: IceConfigView,
    u: Seq<char>,
)
    requires
        is_issued(before, session, urls, now, nonce, after, config),
        is_reusable(before.entries, session, now, u),
    ensures
        after.entries.dom().subset_of(before.entries.dom()),
        after.entries == unexpired(before.entries, now),
{
    assert(is_reusable(unexpired(before.entries, now), session, now, u));
}

// What holds over many requests

/// Something that happens to the credentials.
pub enum CredentialEvent {
    Request { session: Seq<char>, now: u64, nonce: Nonce },
    Revoke { session: Seq<char> },
}

/// The credentials after an event.
pub open spec fn after_event(c: CredentialsView, e: CredentialEvent) -> CredentialsView {
    match e {
        CredentialEvent::Request { session, now, nonce } => after_request(c, session, now, nonce),
        CredentialEvent::Revoke { session } => CredentialsView {
            entries: of_others(c.entries, session),
            ..c
        },
    }
}

/// The credentials after several events.
pub open spec fn after_events(c: CredentialsView, events: Seq<CredentialEvent>) -> CredentialsView
    decreases events.len(),
{
    if events.len() == 0 {
        c
    } else {
        after_event(after_events(c, events.drop_last()), events.last())
    }
}

/// The time of the last request, `t` where there was none.
pub open spec fn last_request(t: u64, events: Seq<CredentialEvent>) -> u64
    decreases events.len(),
{
    if events.len() == 0 {
        t
    } else {
        match events.last() {
            CredentialEvent::Request { session, now, nonce } => now,
            CredentialEvent::Revoke { session } => last_request(t, events.drop_last()),
        }
    }
}

/// Whether no request reads an earlier time than the one before, and each has
/// room for its credential.
pub open spec fn in_order(ttl: u64, t: u64, events: Seq<CredentialEvent>) -> bool
    decreases events.len(),
{
    events.len() > 0 ==> {
        &&& in_order(ttl, t, events.drop_last())
        &&& events.last() matches CredentialEvent::Request { session, now, nonce } ==> {
            &&& last_request(t, events.drop_last()) <= now
            &&& has_room(ttl, now)
        }
    }
}

/// Whether `u` is a username of a credential that runs out at `expires_at`.
pub open spec fn is_named_for(u: Seq<char>, expires_at: u64) -> bool {
    exists|name: u128| u == #[trigger] new_username(expires_at as nat, name)
}

/// What holds where no request has read a later time than `t`: no credential
/// lives longer than one made at `t` would, no session has two that are good
/// for long enough to be handed out again, and the usernames say when the
/// credentials run out.
pub open spec fn is_orderly(c: CredentialsView, t: u64) -> bool {
    &&& forall|u: Seq<char>| #[trigger]
        c.entries.dom().contains(u) ==> c.entries[u].expires_at <= t + c.ttl && is_named_for(
            u,
            c.entries[u].expires_at,
        )
    &&& forall|u: Seq<char>, w: Seq<char>| #[trigger]
        c.entries.dom().contains(u) && #[trigger] c.entries.dom().contains(w)
            && c.entries[u].session == c.entries[w].session && c.entries[u].expires_at > t
            + REUSE_SECS && c.entries[w].expires_at > t + REUSE_SECS ==> u == w
}

proof fn lemma_event_is_orderly(c: CredentialsView, t: u64, e: CredentialEvent)
    requires
        is_orderly(c, t),
        e matches CredentialEvent::Request { session, now, nonce } ==> t <= now && has_room(
            c.ttl,
            now,
        ),
    ensures
        is_orderly(
            after_event(c, e),
            if let CredentialEvent::Request { session, now, nonce } = e {
                now
            } else {
                t
            },
        ),
        after_event(c, e).ttl == c.ttl,
        after_event(c, e).realm == c.realm,
{
    let after = after_event(c, e);
    match e {
        CredentialEvent::Request { session, now, nonce } => {
            let kept = unexpired(c.entries, now);
            let reused = exists|u: Seq<char>| is_reusable(kept, session, now, u);
            let new = new_username((now + c.ttl) as nat, nonce.name);
            assert forall|u: Seq<char>| #[trigger] after.entries.dom().contains(
                u,
            ) implies after.entries[u].expires_at <= now + c.ttl && is_named_for(
                u,
                after.entries[u].expires_at,
            ) by {
                if !reused && u == new {
                    assert(u == new_username(after.entries[u].expires_at as nat, nonce.name));
                } else {
                    assert(c.entries.dom().contains(u));
                }
            }
            assert forall|u: Seq<char>, w: Seq<char>| #[trigger]
                after.entries.dom().contains(u) && #[trigger] after.entries.dom().contains(w)
                    && after.entries[u].session == after.entries[w].session
                    && after.entries[u].expires_at > now + REUSE_SECS
                    && after.entries[w].expires_at > now + REUSE_SECS implies u == w by {
                if !reused && (u == new || w == new) {
                    if u != w {
                        let other = if u == new {
                            w
                        } else {
                            u
                        };
                        assert(is_reusable(kept, session, now, other));
                    }
                } else {
                    assert(c.entries.dom().contains(u) && c.entries.dom().contains(w));
                }
            }
        },
        CredentialEvent::Revoke { session } => {
            assert forall|u: Seq<char>| #[trigger] after.entries.dom().contains(
                u,
            ) implies c.entries.dom().contains(u) && after.entries[u] == c.entries[u] by {}
        },
    }
}

/// However requests and revocations follow each other, as long as the clock
/// does not run backwards, no credential lives longer than it should and no
/// session has two to choose from.
pub proof fn law_order_is_kept(c: CredentialsView, t: u64, events: Seq<CredentialEvent>)
    requires
        is_orderly(c, t),
        in_order(c.ttl, t, events),
    ensures
        is_orderly(after_events(c, events), last_request(t, events)),
        after_events(c, events).ttl == c.ttl,
        after_events(c, events).realm == c.realm,
        t <= last_request(t, events),
    decreases events.len(),
{
    if events.len() > 0 {
        law_order_is_kept(c, t, events.drop_last());
        lemma_event_is_orderly(
            after_events(c, events.drop_last()),
            last_request(t, events.drop_last()),
            events.last(),
        );
    }
}

/// A store that has issued nothing is in order, whatever the time.
pub proof fn law_order_begins(c: CredentialsView, t: u64)
    requires
        c.entries == Map::<Seq<char>, CredentialView>::empty(),
    ensures
        is_orderly(c, t),
{
}

/// What a request is promised, where no earlier one read a later time: a
/// credential that is good for more than [`REUSE_SECS`] and for no longer than
/// the full time. Every TURN server in the answer comes with its username, and
/// until it runs out that username is answered with its key.
pub proof fn law_request_is_answered_well(
    before: CredentialsView,
    t: u64,
    session: Seq<char>,
    urls: Seq<Seq<char>>,
    now: u64,
    nonce: Nonce,
    after: CredentialsView,
    config: IceConfigView,
)
    requires
        is_orderly(before, t),
        t <= now,
        before.ttl > REUSE_SECS,
        has_room(before.ttl, now),
        is_issued(before, session, urls, now, nonce, after, config),
    ensures
        exists|u: Seq<char>|
            {
                let c = after.entries[u];
                &&& #[trigger] hands_out(config, urls, after, u)
                &&& config.expires_at == Some(c.expires_at)
                &&& now + REUSE_SECS < c.expires_at <= now + before.ttl
                &&& config.ice_servers.len() == urls.len()
                &&& forall|i: int|
                    0 <= i < urls.len() && has_prefix(#[trigger] urls[i], "turn"@)
                        ==> config.ice_servers[i].username == Some(u)
                        && config.ice_servers[i].credential == Some(c.password)
                &&& forall|n: u64|
                    now <= n < c.expires_at ==> #[trigger] authenticated(after, u, before.realm, n)
                        == Ok::<_, AuthError>(c.key)
            },
{
    let u = choose|u: Seq<char>|
        is_handed_out(before, session, now, nonce, u) && config == #[trigger] ice_config_of(
            urls,
            u,
            after.entries[u],
        );
    lemma_handed_out(before, session, now, nonce, u);
    lemma_event_is_orderly(before, t, CredentialEvent::Request { session, now, nonce });
    assert(after.entries.dom().contains(u));
    assert(hands_out(config, urls, after, u));
    assert forall|i: int| 0 <= i < urls.len() && has_prefix(#[trigger] urls[i], "turn"@) implies
        config.ice_servers[i].username == Some(u) && config.ice_servers[i].credential == Some(
        after.entries[u].password,
    ) by {
        assert(config.ice_servers[i] == ice_server_of(urls[i], u, after.entries[u]));
    }
}

/// Whether an event is about another session, and makes no credential of the
/// username `u`.
pub open spec fn passes_by(
    c: CredentialsView,
    e: CredentialEvent,
    session: Seq<char>,
    u: Seq<char>,
) -> bool {
    match e {
        CredentialEvent::Request { session: other, now, nonce } => other != session
            && new_username((now + c.ttl) as nat, nonce.name) != u,
        CredentialEvent::Revoke { session: other } => other != session,
    }
}

/// What happens to other sessions leaves a session's credentials alone, until
/// they run out.
proof fn lemma_others_pass_by(
    c: CredentialsView,
    t: u64,
    events: Seq<CredentialEvent>,
    session: Seq<char>,
    u: Seq<char>,
    limit: u64,
)
    requires
        in_order(c.ttl, t, events),
        forall|k: int| 0 <= k < events.len() ==> passes_by(c, #[trigger] events[k], session, u),
        c.entries.dom().contains(u),
        c.entries[u].session == session,
        forall|w: Seq<char>| #[trigger]
            c.entries.dom().contains(w) && w != u && c.entries[w].session == session
                ==> c.entries[w].expires_at <= limit,
    ensures
        after_events(c, events).ttl == c.ttl,
        after_events(c, events).realm == c.realm,
        ({
            let after = after_events(c, events);
            &&& c.entries[u].expires_at > last_request(t, events) ==> after.entries.dom().contains(u)
            &&& after.entries.dom().contains(u) ==> after.entries[u] == c.entries[u]
            &&& forall|w: Seq<char>| #[trigger]
                after.entries.dom().contains(w) && w != u && after.entries[w].session == session
                    ==> after.entries[w].expires_at <= limit
        }),
        t <= last_request(t, events),
    decreases events.len(),
{
    if events.len() > 0 {
        let earlier = events.drop_last();
        assert forall|k: int| 0 <= k < earlier.len() implies passes_by(
            c,
            #[trigger] earlier[k],
            session,
            u,
        ) by {
            assert(earlier[k] == events[k]);
        }
        lemma_others_pass_by(c, t, earlier, session, u, limit);
        let before = after_events(c, earlier);
        let after = after_events(c, events);
        assert(passes_by(c, events[events.len() - 1], session, u));
        assert forall|w: Seq<char>| #[trigger] after.entries.dom().contains(w) && w != u
            && after.entries[w].session == session implies after.entries[w].expires_at
            <= limit by {
            assert(before.entries.dom().contains(w));
        }
    }
}

/// A session that asks again gets the same credential back, username, password
/// and end, as long as that is good for long enough, and nothing is added.
/// After that it gets a new one, good for the full time, and the earlier one
/// stays good until it runs out. What other sessions do in between does not
/// matter, unless chance gives one of them the same username.
pub proof fn law_asking_again(
    first: CredentialsView,
    t: u64,
    session: Seq<char>,
    now: u64,
    nonce: Nonce,
    u: Seq<char>,
    events: Seq<CredentialEvent>,
    urls: Seq<Seq<char>>,
    later: u64,
    later_nonce: Nonce,
    after: CredentialsView,
    config: IceConfigView,
)
    requires
        is_orderly(first, t),
        t <= now,
        has_room(first.ttl, now),
        is_handed_out(first, session, now, nonce, u),
        in_order(first.ttl, now, events),
        forall|k: int|
            0 <= k < events.len() ==> passes_by(first, #[trigger] events[k], session, u),
        last_request(now, events) <= later,
        has_room(first.ttl, later),
        is_issued(
            after_events(after_request(first, session, now, nonce), events),
            session,
            urls,
            later,
            later_nonce,
            after,
            config,
        ),
    ensures
        ({
            let c = after_request(first, session, now, nonce).entries[u];
            let between = after_events(after_request(first, session, now, nonce), events);
            let next = new_username((later + first.ttl) as nat, later_nonce.name);
            if c.expires_at > later + REUSE_SECS {
                &&& config == ice_config_of(urls, u, c)
                &&& config.expires_at == Some(c.expires_at)
                &&& after.entries == unexpired(between.entries, later)
                &&& after.entries.dom().subset_of(between.entries.dom())
            } else {
                &&& after.entries.dom().contains(next)
                &&& config == ice_config_of(urls, next, after.entries[next])
                &&& config.expires_at == Some((later + first.ttl) as u64)
                &&& first.ttl > REUSE_SECS ==> next != u
                &&& next != u ==> forall|n: u64|
                    later <= n < c.expires_at ==> #[trigger] authenticated(after, u, first.realm, n)
                        == Ok::<_, AuthError>(c.key)
            }
        }),
{
    let second = after_request(first, session, now, nonce);
    let between = after_events(second, events);
    let c = second.entries[u];
    let kept_first = unexpired(first.entries, now);
    lemma_handed_out(first, session, now, nonce, u);
    lemma_event_is_orderly(first, t, CredentialEvent::Request { session, now, nonce });
    let limit = (now + REUSE_SECS) as u64;
    assert forall|w: Seq<char>| #[trigger] second.entries.dom().contains(w) && w != u
        && second.entries[w].session == session implies second.entries[w].expires_at <= limit by {
        if second.entries[w].expires_at > limit {
            assert(is_reusable(kept_first, session, now, w));
            assert(second.entries.dom().contains(u));
        }
    }
    assert forall|k: int| 0 <= k < events.len() implies passes_by(
        second,
        #[trigger] events[k],
        session,
        u,
    ) by {
        assert(passes_by(first, events[k], session, u));
    }
    lemma_others_pass_by(second, now, events, session, u, limit);
    let kept = unexpired(between.entries, later);
    if c.expires_at > later + REUSE_SECS {
        assert(is_reusable(kept, session, later, u));
        assert forall|w: Seq<char>| is_reusable(kept, session, later, w) implies w == u by {
            assert(between.entries.dom().contains(w));
        }
    } else {
        assert forall|w: Seq<char>| !is_reusable(kept, session, later, w) by {
            if is_reusable(kept, session, later, w) {
                assert(between.entries.dom().contains(w));
            }
        }
        let next = new_username((later + first.ttl) as nat, later_nonce.name);
        assert(is_named_for(u, c.expires_at));
        if next == u {
            let name = choose|name: u128| u == #[trigger] new_username(c.expires_at as nat, name);
            law_usernames_differ(
                c.expires_at as nat,
                name,
                (later + first.ttl) as nat,
                later_nonce.name,
            );
        }
        if next != u {
            assert forall|n: u64| later <= n < c.expires_at implies #[trigger] authenticated(
                after,
                u,
                first.realm,
                n,
            ) == Ok::<_, AuthError>(c.key) by {
                assert(kept.dom().contains(u));
            }
        }
    }
}

/// No two credentials that run out at different times or have different random
/// parts share a username.
pub proof fn law_usernames_differ(expires_a: nat, name_a: u128, expires_b: nat, name_b: u128)
    requires
        new_username(expires_a, name_a) == new_username(expires_b, name_b),
    ensures
        expires_a == expires_b,
        name_a == name_b,
{
    let x = new_username(expires_a, name_a);
    let y = new_username(expires_b, name_b);
    law_uuid_texts_differ(name_a, name_b);
    law_uuid_texts_differ(name_b, name_a);
    assert(uuid_text(name_a) =~= x.skip(x.len() - 36));
    assert(uuid_text(name_b) =~= y.skip(y.len() - 36));
    assert(decimal(expires_a) =~= x.take(x.len() - 37));
    assert(decimal(expires_b) =~= y.take(y.len() - 37));
    law_decimal_reads_back(expires_a);
    law_decimal_reads_back(expires_b);
}

/// After a session's credentials are taken back, none of its usernames is
/// good, at any time; the usernames of other sessions are answered as before.
pub proof fn law_revoked_is_refused(
    before: CredentialsView,
    session: Seq<char>,
    after: CredentialsView,
    u: Seq<char>,
    realm: Seq<char>,
    now: u64,
)
    requires
        after == (CredentialsView { entries: of_others(before.entries, session), ..before }),
        before.entries.dom().contains(u),
    ensures
        before.entries[u].session == session ==> authenticated(after, u, realm, now) is Err,
        before.entries[u].session != session ==> authenticated(after, u, realm, now)
            == authenticated(before, u, realm, now),
{
}

/// In another realm, no username is good.
pub proof fn law_other_realm_is_refused(
    c: CredentialsView,
    u: Seq<char>,
    realm: Seq<char>,
    now: u64,
)
    requires
        realm != c.realm,
    ensures
        authenticated(c, u, realm, now) == Err::<Seq<u8>, _>(AuthError::InvalidRealm),
{
}

/// A request is answered with a credential that the session has, where that is
/// good for more than 90 seconds. Else a new one is made, which is the session's,
/// is good for as long as the lifetime says, and is named after the time at which
/// it runs out. In either case expired credentials are forgotten, and all others
/// stay as they are.
pub proof fn law_request_reuses_or_makes(
    before: CredentialsView,
    session: Seq<char>,
    urls: Seq<Seq<char>>,
    now: u64,
    nonce: Nonce,
    after: CredentialsView,
    config: IceConfigView,
    w: Seq<char>,
)
    requires
        is_issued(before, session, urls, now, nonce, after, config),
        now + before.ttl <= u64::MAX,
    ensures
        after.realm == before.realm && after.ttl == before.ttl,
        (exists|u: Seq<char>|
            #![trigger before.entries.dom().contains(u)]
            before.entries.dom().contains(u) && before.entries[u].session == session
                && before.entries[u].expires_at > now + 90) ==> {
            &&& after.entries.dom().contains(w) <==> before.entries.dom().contains(w)
                && before.entries[w].expires_at > now
            &&& after.entries.dom().contains(w) ==> after.entries[w] == before.entries[w]
            &&& exists|u: Seq<char>|
                #![trigger before.entries.dom().contains(u)]
                before.entries.dom().contains(u) && before.entries[u].session == session
                    && before.entries[u].expires_at > now + 90 && config.expires_at == Some(
                    before.entries[u].expires_at,
                )
        },
        (forall|u: Seq<char>|
            #![trigger before.entries.dom().contains(u)]
            before.entries.dom().contains(u) && before.entries[u].session == session
                ==> before.entries[u].expires_at <= now + 90) ==> {
            let name = decimal((now + before.ttl) as nat) + seq![':'] + uuid_text(nonce.name);
            &&& after.entries.dom().contains(name) && after.entries[name].session == session
            &&& after.entries[name].expires_at == now + before.ttl
            &&& after.entries[name].password == uuid_digits(nonce.secret.0) + uuid_digits(
                nonce.secret.1,
            )
            &&& after.entries[name].key == auth_key(
                name,
                before.realm,
                after.entries[name].password,
            )
            &&& config.expires_at == Some((now + before.ttl) as u64)
            &&& w != name ==> (after.entries.dom().contains(w) <==> before.entries.dom().contains(w)
                && before.entries[w].expires_at > now)
            &&& w != name && after.entries.dom().contains(w) ==> after.entries[w]
                == before.entries[w]
        },
{
    let kept = unexpired(before.entries, now);
    let u = choose|u: Seq<char>|
        is_handed_out(before, session, now, nonce, u) && config == #[trigger] ice_config_of(
            urls,
            u,
            after.entries[u],
        );
    if exists|x: Seq<char>|
        #![trigger before.entries.dom().contains(x)]
        before.entries.dom().contains(x) && before.entries[x].session == session
            && before.entries[x].expires_at > now + 90 {
        let x = choose|x: Seq<char>|
            #![trigger before.entries.dom().contains(x)]
            before.entries.dom().contains(x) && before.entries[x].session == session
                && before.entries[x].expires_at > now + 90;
        assert(is_reusable(kept, session, now, x));
        assert(is_reusable(kept, session, now, u));
        assert(before.entries.dom().contains(u));
    } else {
        assert forall|x: Seq<char>| !is_reusable(kept, session, now, x) by {
            if is_reusable(kept, session, now, x) {
                assert(before.entries.dom().contains(x));
            }
        }
    }
}

/// What a browser is told of its ICE servers: every URL, in order; with each that
/// begins with `turn` the username and the password of one credential, and with
/// no other anything; and when that credential runs out.
pub proof fn law_only_turn_servers_get_the_credential(
    before: CredentialsView,
    session: Seq<char>,
    urls: Seq<Seq<char>>,
    now: u64,
    nonce: Nonce,
    after: CredentialsView,
    config: IceConfigView,
)
    requires
        is_issued(before, session, urls, now, nonce, after, config),
    ensures
        config.ice_servers.len() == urls.len(),
        exists|u: Seq<char>|
            #![trigger after.entries.dom().contains(u)]
            after.entries.dom().contains(u) && after.entries[u].session == session
                && config.expires_at == Some(after.entries[u].expires_at) && forall|i: int|
                #![trigger config.ice_servers[i]]
                0 <= i < urls.len() ==> {
                    let server = config.ice_servers[i];
                    let turn = urls[i].len() >= 4 && urls[i][0] == 't' && urls[i][1] == 'u'
                        && urls[i][2] == 'r' && urls[i][3] == 'n';
                    &&& server.urls == urls[i]
                    &&& turn ==> server.username == Some(u) && server.credential == Some(
                        after.entries[u].password,
                    )
                    &&& !turn ==> server.username is None && server.credential is None
                },
{
    let u = choose|u: Seq<char>|
        is_handed_out(before, session, now, nonce, u) && config == #[trigger] ice_config_of(
            urls,
            u,
            after.entries[u],
        );
    let kept = unexpired(before.entries, now);
    if exists|x: Seq<char>| is_reusable(kept, session, now, x) {
        assert(is_reusable(kept, session, now, u));
    }
    assert(after.entries.dom().contains(u));
    assert forall|i: int|
        #![trigger config.ice_servers[i]]
        0 <= i < urls.len() implies {
        let server = config.ice_servers[i];
        let turn = urls[i].len() >= 4 && urls[i][0] == 't' && urls[i][1] == 'u' && urls[i][2] == 'r'
            && urls[i][3] == 'n';
        &&& server.urls == urls[i]
        &&& turn ==> server.username == Some(u) && server.credential == Some(
            after.entries[u].password,
        )
        &&& !turn ==> server.username is None && server.credential is None
    } by {
        reveal_strlit("turn");
        let url = urls[i];
        if url.len() >= 4 {
            let head = url.take(4);
            assert(head[0] == url[0] && head[1] == url[1] && head[2] == url[2] && head[3]
                == url[3]);
            if url[0] == 't' && url[1] == 'u' && url[2] == 'r' && url[3] == 'n' {
                assert(head =~= "turn"@);
            }
        }
    }
}

/// A credential lets in whoever has it until it runs out, in its own realm, with
/// the key that belongs to it; every other name, every other realm and every
/// later time is turned away, the realm first.
pub proof fn law_credential_lets_in_until_it_expires(
    c: CredentialsView,
    username: Seq<char>,
    realm: Seq<char>,
    now: u64,
)
    ensures
        authenticated(c, username, realm, now) is Ok <==> realm == c.realm
            && c.entries.dom().contains(username) && now < c.entries[username].expires_at,
        authenticated(c, username, realm, now) matches Ok(key) ==> key == c.entries[username].key,
        authenticated(c, username, realm, now) == Err::<Seq<u8>, _>(AuthError::InvalidRealm)
            <==> realm != c.realm,
        authenticated(c, username, realm, now) == Err::<Seq<u8>, _>(AuthError::UnknownCredential)
            <==> realm == c.realm && !(c.entries.dom().contains(username) && now
            < c.entries[username].expires_at),
{
}

/// Only what is another session's survives when a session's credentials are taken
/// back, and only what has not run out survives when time passes; what survives
/// is unchanged.
pub proof fn law_what_survives_is_unchanged(
    m: Map<Seq<char>, CredentialView>,
    session: Seq<char>,
    now: u64,
    u: Seq<char>,
)
    ensures
        of_others(m, session).dom().contains(u) <==> m.dom().contains(u) && m[u].session != session,
        of_others(m, session).dom().contains(u) ==> of_others(m, session)[u] == m[u],
        unexpired(m, now).dom().contains(u) <==> m.dom().contains(u) && now < m[u].expires_at,
        unexpired(m, now).dom().contains(u) ==> unexpired(m, now)[u] == m[u],
{
}

/// There is room for a credential as long as neither its end nor the time by
/// which it could be used again is beyond 64 bits.
pub proof fn law_there_is_room_until_time_ends(ttl: u64, now: u64)
    ensures
        has_room(ttl, now) <==> now + ttl < 0x1_0000_0000_0000_0000 && now + 90
            < 0x1_0000_0000_0000_0000,
{
}

/// Different secrets give different passwords, of 64 characters.
pub proof fn law_passwords_differ(a: (u128, u128), b: (u128, u128))
    ensures
        new_password(a).len() == 64,
        new_password(a) == new_password(b) ==> a == b,
{
    law_uuid_texts_differ(a.0, b.0);
    law_uuid_texts_differ(a.1, b.1);
    law_uuid_texts_differ(b.0, a.0);
    law_uuid_texts_differ(b.1, a.1);
    if new_password(a) == new_password(b) {
        assert(new_password(a).take(32) =~= uuid_digits(a.0));
        assert(new_password(b).take(32) =~= uuid_digits(b.0));
        assert(new_password(a).skip(32) =~= uuid_digits(a.1));
        assert(new_password(b).skip(32) =~= uuid_digits(b.1));
    }
}

/// Without TURN a browser is told of every configured STUN server, in order,
/// without credentials and without an end.
pub proof fn law_stun_servers_are_told(urls: Seq<Seq<char>>, i: int)
    requires
        0 <= i < urls.len(),
    ensures
        stun_config_of(urls).ice_servers.len() == urls.len(),
        stun_config_of(urls).ice_servers[i].urls == urls[i],
        stun_config_of(urls).ice_servers[i].username is None,
        stun_config_of(urls).ice_servers[i].credential is None,
        stun_config_of(urls).expires_at is None,
{
}

} // verus!
