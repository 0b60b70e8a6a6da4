//! Connection parameters, the ClickHouse client built from them, and the pool
//! that keeps one client per connection.

use vstd::prelude::*;
use vstd::hash_map::StringHashMap;
use clickhouse::Client;
use crate::text::{decimal, decimal_string};
use crate::escape::{escape_string, escaped_string};

verus! {

#[verifier::external_type_specification]
#[verifier::external_body]
pub struct ExClient(clickhouse::Client);

/// The connection parameters of a request, each as given (absent where the
/// request lacks it or gives a value of another JSON type).
pub struct ConnectionRequest {
    pub host: Option<String>,
    pub port: Option<u64>,
    pub database: Option<String>,
    pub username: Option<String>,
    pub password: Option<String>,
    pub ssl: Option<bool>,
}

/// Connection parameters with their defaults applied.
pub struct ConnectionParams {
    pub host: String,
    pub port: u64,
    pub database: String,
    pub username: String,
    pub password: String,
    pub ssl: bool,
}

/// The model of connection parameters.
pub struct ConnectionModel {
    pub host: Seq<char>,
    pub port: u64,
    pub database: Seq<char>,
    pub username: Seq<char>,
    pub password: Seq<char>,
    pub ssl: bool,
}

impl View for ConnectionParams {
    type V = ConnectionModel;

    open spec fn view(&self) -> ConnectionModel {
        ConnectionModel {
            host: self.host@,
            port: self.port,
            database: self.database@,
            username: self.username@,
            password: self.password@,
            ssl: self.ssl,
        }
    }
}

/// `o`'s text, or `d`.
pub open spec fn text_or_default(o: Option<String>, d: Seq<char>) -> Seq<char> {
    match o {
        Some(s) => s@,
        None => d,
    }
}

/// The parameters a request stands for: host `localhost`, port 8123, database
/// `default`, user `default`, an empty password and no TLS unless given.
pub open spec fn resolved(req: ConnectionRequest) -> ConnectionModel {
    ConnectionModel {
        host: text_or_default(req.host, "localhost"@),
        port: match req.port {
            Some(p) => p,
            None => 8123,
        },
        database: text_or_default(req.database, "default"@),
        username: text_or_default(req.username, "default"@),
        password: text_or_default(req.password, ""@),
        ssl: match req.ssl {
            Some(b) => b,
            None => false,
        },
    }
}

fn text_or(o: &Option<String>, d: &str) -> (r: String)
    ensures
        r@ == text_or_default(*o, d@),
{
    match o {
        Some(s) => s.clone(),
        None => String::from_str(d),
    }
}

/// Applies the defaults to a request's connection parameters.
pub fn resolve_params(req: &ConnectionRequest) -> (r: ConnectionParams)
    ensures
        r@ == resolved(*req),
{
    ConnectionParams {
        host: text_or(&req.host, "localhost"),
        port: match req.port {
            Some(p) => p,
            None => 8123,
        },
        database: text_or(&req.database, "default"),
        username: text_or(&req.username, "default"),
        password: text_or(&req.password, ""),
        ssl: match req.ssl {
            Some(b) => b,
            None => false,
        },
    }
}

/// The database a request works in when it names no schema: its connection's
/// database, `default` when none is given.
pub fn request_database(req: &ConnectionRequest) -> (r: String)
    ensures
        r@ == text_or_default(req.database, "default"@),
{
    text_or(&req.database, "default")
}

/// The HTTP endpoint of a connection: `https://host:port` with TLS,
/// `http://host:port` without.
pub open spec fn client_url_of(p: ConnectionModel) -> Seq<char> {
    (if p.ssl {
        "https"@
    } else {
        "http"@
    }) + "://"@ + p.host + ":"@ + decimal(p.port as nat)
}

/// The HTTP endpoint of a connection.
pub fn client_url(p: &ConnectionParams) -> (r: String)
    ensures
        r@ == client_url_of(p@),
{
    let mut r = if p.ssl {
        String::from_str("https")
    } else {
        String::from_str("http")
    };
    r.append("://");
    r.append(p.host.as_str());
    r.append(":");
    let port = decimal_string(p.port);
    r.append(port.as_str());
    r
}

/// What a client is set up with for a connection: its URL, user, password
/// and database.
pub struct ClientTarget {
    pub url: Seq<char>,
    pub user: Seq<char>,
    pub password: Seq<char>,
    pub database: Seq<char>,
}

/// The set-up a connection asks for: the URL of `client_url_of`, and the
/// connection's user, password and database.
pub open spec fn target_of(p: ConnectionModel) -> ClientTarget {
    ClientTarget {
        url: client_url_of(p),
        user: p.username,
        password: p.password,
        database: p.database,
    }
}

/// One field of a pool key: the text escaped as in a string literal, then a
/// closing single quote.
pub open spec fn key_field(s: Seq<char>) -> Seq<char> {
    escaped_string(s) + "'"@
}

/// The key under which the pool keeps a client: its URL (protocol, host and
/// port), user, password and database, each as a key field, so that distinct
/// set-ups never share a key.
pub open spec fn client_key_of(t: ClientTarget) -> Seq<char> {
    key_field(t.url) + key_field(t.user) + key_field(t.password) + key_field(t.database)
}

/// How a key field is read back from the front of `k`: a backslash takes the
/// next character as it is, and the first other single quote ends the field.
/// Gives the field's text and what follows it.
pub open spec fn read_key_field(k: Seq<char>) -> (Seq<char>, Seq<char>)
    decreases k.len(),
{
    if k.len() == 0 {
        (seq![], seq![])
    } else if k[0] == '\\' && k.len() >= 2 {
        let (f, r) = read_key_field(k.skip(2));
        (seq![k[1]] + f, r)
    } else if k[0] == '\'' {
        (seq![], k.skip(1))
    } else {
        let (f, r) = read_key_field(k.skip(1));
        (seq![k[0]] + f, r)
    }
}

proof fn lemma_read_key_field(s: Seq<char>, rest: Seq<char>)
    ensures
        read_key_field(key_field(s) + rest) == (s, rest),
    decreases s.len(),
{
    reveal_strlit("'");
    let k = key_field(s) + rest;
    if s.len() == 0 {
        assert(s =~= Seq::<char>::empty());
        assert(escaped_string(Seq::<char>::empty()) =~= Seq::<char>::empty());
        assert(k =~= seq!['\''] + rest);
        assert(k.skip(1) =~= rest);
    } else {
        let c = s[0];
        lemma_read_key_field(s.drop_first(), rest);
        let tail = key_field(s.drop_first()) + rest;
        if c == '\\' || c == '\'' {
            assert(k =~= seq!['\\', c] + tail);
            assert(k.skip(2) =~= tail);
        } else {
            assert(k =~= seq![c] + tail);
            assert(k.skip(1) =~= tail);
        }
        assert(read_key_field(k).0 =~= s);
    }
}

/// Distinct set-ups have distinct keys: a pool key gives back the URL, user,
/// password and database it was made from.
pub proof fn lemma_client_key_injective(a: ClientTarget, b: ClientTarget)
    requires
        client_key_of(a) == client_key_of(b),
    ensures
        a == b,
{
    let ra3 = key_field(a.database);
    let ra2 = key_field(a.password) + ra3;
    let ra1 = key_field(a.user) + ra2;
    let rb3 = key_field(b.database);
    let rb2 = key_field(b.password) + rb3;
    let rb1 = key_field(b.user) + rb2;
    assert(client_key_of(a) =~= key_field(a.url) + ra1);
    assert(client_key_of(b) =~= key_field(b.url) + rb1);
    lemma_read_key_field(a.url, ra1);
    lemma_read_key_field(b.url, rb1);
    lemma_read_key_field(a.user, ra2);
    lemma_read_key_field(b.user, rb2);
    lemma_read_key_field(a.password, ra3);
    lemma_read_key_field(b.password, rb3);
    assert(ra3 =~= ra3 + Seq::<char>::empty());
    assert(rb3 =~= rb3 + Seq::<char>::empty());
    lemma_read_key_field(a.database, Seq::<char>::empty());
    lemma_read_key_field(b.database, Seq::<char>::empty());
}

/// The key under which the pool keeps the client for a connection.
pub fn client_key(p: &ConnectionParams) -> (r: String)
    ensures
        r@ == client_key_of(target_of(p@)),
{
    let url = client_url(p);
    let mut r = escape_string(url.as_str());
    r.append("'");
    let u = escape_string(p.username.as_str());
    r.append(u.as_str());
    r.append("'");
    let w = escape_string(p.password.as_str());
    r.append(w.as_str());
    r.append("'");
    let d = escape_string(p.database.as_str());
    r.append(d.as_str());
    r.append("'");
    r
}

/// What a clickhouse client holds of what this library sets: its URL, its
/// user, password and database where set, and whether an access token was set.
pub struct ClientSettings {
    pub url: Seq<char>,
    pub user: Option<Seq<char>>,
    pub password: Option<Seq<char>>,
    pub database: Option<Seq<char>>,
    pub access_token: bool,
}

/// The settings of `Client::default()`: an empty URL, nothing else set.
pub open spec fn default_settings() -> ClientSettings {
    ClientSettings { url: ""@, user: None, password: None, database: None, access_token: false }
}

/// `s` with its URL replaced.
pub open spec fn set_url(s: ClientSettings, url: Seq<char>) -> ClientSettings {
    ClientSettings { url, user: s.user, password: s.password, database: s.database, access_token: s.access_token }
}

/// `s` with its user set.
pub open spec fn set_user(s: ClientSettings, user: Seq<char>) -> ClientSettings {
    ClientSettings { url: s.url, user: Some(user), password: s.password, database: s.database, access_token: s.access_token }
}

/// `s` with its password set.
pub open spec fn set_password(s: ClientSettings, password: Seq<char>) -> ClientSettings {
    ClientSettings { url: s.url, user: s.user, password: Some(password), database: s.database, access_token: s.access_token }
}

/// `s` with its database set.
pub open spec fn set_database(s: ClientSettings, database: Seq<char>) -> ClientSettings {
    ClientSettings { url: s.url, user: s.user, password: s.password, database: Some(database), access_token: s.access_token }
}

/// The settings of a client set up for `t`: its URL, user, password and
/// database, and no access token.
pub open spec fn configured(t: ClientTarget) -> ClientSettings {
    ClientSettings {
        url: t.url,
        user: Some(t.user),
        password: Some(t.password),
        database: Some(t.database),
        access_token: false,
    }
}

/// A clickhouse client together with the settings it was given.
pub struct ConfiguredClient {
    client: Client,
    settings: Ghost<ClientSettings>,
}

impl ConfiguredClient {
    /// The settings the client was given.
    pub closed spec fn settings(&self) -> ClientSettings {
        self.settings@
    }

    /// The client, to run queries with.
    pub fn client(&self) -> &Client {
        &self.client
    }
}

/// `Client::default()` of the clickhouse crate. The contract claims what the
/// crate's source shows: the client starts with an empty URL, no user,
/// password or database, and no access token.
#[verifier::external_body]
fn client_default() -> (r: ConfiguredClient)
    ensures
        r.settings() == default_settings(),
{
    ConfiguredClient { client: Client::default(), settings: Ghost(default_settings()) }
}

/// `Client::with_url` of the clickhouse crate. The contract claims that the
/// URL is replaced and every other setting stays.
#[verifier::external_body]
fn client_with_url(c: ConfiguredClient, url: &str) -> (r: ConfiguredClient)
    ensures
        r.settings() == set_url(c.settings(), url@),
{
    let settings = Ghost(set_url(c.settings@, url@));
    ConfiguredClient { client: c.client.with_url(url), settings }
}

/// `Client::with_user` of the clickhouse crate, which panics on a client given
/// an access token; `requires` leaves that client out. The contract claims
/// that the user is set and every other setting stays.
#[verifier::external_body]
fn client_with_user(c: ConfiguredClient, user: &str) -> (r: ConfiguredClient)
    requires
        !c.settings().access_token,
    ensures
        r.settings() == set_user(c.settings(), user@),
{
    let settings = Ghost(set_user(c.settings@, user@));
    ConfiguredClient { client: c.client.with_user(user), settings }
}

/// `Client::with_password` of the clickhouse crate, which panics on a client
/// given an access token; `requires` leaves that client out. The contract
/// claims that the password is set and every other setting stays.
#[verifier::external_body]
fn client_with_password(c: ConfiguredClient, password: &str) -> (r: ConfiguredClient)
    requires
        !c.settings().access_token,
    ensures
        r.settings() == set_password(c.settings(), password@),
{
    let settings = Ghost(set_password(c.settings@, password@));
    ConfiguredClient { client: c.client.with_password(password), settings }
}

/// `Client::with_database` of the clickhouse crate. The contract claims that
/// the database is set and every other setting stays.
#[verifier::external_body]
fn client_with_database(c: ConfiguredClient, database: &str) -> (r: ConfiguredClient)
    ensures
        r.settings() == set_database(c.settings(), database@),
{
    let settings = Ghost(set_database(c.settings@, database@));
    ConfiguredClient { client: c.client.with_database(database), settings }
}

/// A client for a connection: the default client given the connection's URL,
/// user, password and database, and no access token.
pub fn build_client(p: &ConnectionParams) -> (r: ConfiguredClient)
    ensures
        r.settings() == configured(target_of(p@)),
{
    let url = client_url(p);
    let c = client_default();
    let c = client_with_url(c, url.as_str());
    let c = client_with_user(c, p.username.as_str());
    let c = client_with_password(c, p.password.as_str());
    client_with_database(c, p.database.as_str())
}

/// How a pool goes from `before` to `after` when the client for `key` is asked
/// for and `client` is handed out: the pool then holds `key`, and `client` is
/// the client kept under it; a key already held leaves the pool as it was;
/// otherwise only `key` is added, and every client kept before stays.
pub open spec fn pooled(
    before: Map<Seq<char>, ConfiguredClient>,
    after: Map<Seq<char>, ConfiguredClient>,
    key: Seq<char>,
    client: ConfiguredClient,
) -> bool {
    &&& after.contains_key(key)
    &&& client == after[key]
    &&& before.contains_key(key) ==> after == before
    &&& after.dom() == before.dom().insert(key)
    &&& forall|k: Seq<char>| #[trigger] before.contains_key(k) ==> after[k] == before[k]
}

/// A pool entry is sound: the client kept under a key was set up for exactly
/// the set-up that key stands for.
pub open spec fn entry_ok(key: Seq<char>, c: ConfiguredClient) -> bool {
    exists|t: ClientTarget| client_key_of(t) == key && c.settings() == configured(t)
}

/// The clients made so far, one per connection key.
pub struct ClientPool {
    clients: StringHashMap<ConfiguredClient>,
}

impl View for ClientPool {
    type V = Map<Seq<char>, ConfiguredClient>;

    closed spec fn view(&self) -> Map<Seq<char>, ConfiguredClient> {
        self.clients@
    }
}

impl ClientPool {
    /// Every client in the pool is kept under the key of its own set-up.
    pub open spec fn wf(&self) -> bool {
        forall|k: Seq<char>| #[trigger] self@.contains_key(k) ==> entry_ok(k, self@[k])
    }

    /// An empty pool.
    pub fn new() -> (r: ClientPool)
        ensures
            r@ == Map::<Seq<char>, ConfiguredClient>::empty(),
            r.wf(),
    {
        ClientPool { clients: StringHashMap::new() }
    }

    /// The pool's client for a request's connection, made and kept on first use.
    /// A connection already in the pool gets the client kept for it, and the
    /// pool stays as it was; otherwise one new client is kept under its key and
    /// every other entry stays. Either way the client handed out was set up for
    /// the request's connection.
    pub fn get_or_create_client(&mut self, req: &ConnectionRequest) -> (r: &ConfiguredClient)
        requires
            old(self).wf(),
        ensures
            final(self).wf(),
            pooled(old(self)@, final(self)@, client_key_of(target_of(resolved(*req))), *r),
            r.settings() == configured(target_of(resolved(*req))),
    {
        let p = resolve_params(req);
        let key = client_key(&p);
        let ghost t = target_of(p@);
        if !self.clients.contains_key(key.as_str()) {
            let client = build_client(&p);
            self.clients.insert(key.clone(), client);
            assert(entry_ok(key@, self@[key@]));
        }
        assert(self.clients@.dom() =~= old(self)@.dom().insert(key@));
        assert(old(self)@.contains_key(key@) ==> self.clients@ == old(self)@);
        assert(self.wf()) by {
            assert forall|k: Seq<char>| #[trigger] self@.contains_key(k) implies entry_ok(
                k,
                self@[k],
            ) by {
                if k != key@ {
                    assert(old(self)@.contains_key(k));
                }
            }
        }
        proof {
            let e = self@[key@];
            assert(entry_ok(key@, e));
            let t2 = choose|t2: ClientTarget| client_key_of(t2) == key@ && e.settings() == configured(t2);
            lemma_client_key_injective(t2, t);
        }
        let pool: &ClientPool = self;
        pool.clients.get(key.as_str()).unwrap()
    }

    /// The number of clients kept.
    pub fn len(&self) -> (r: usize)
        ensures
            r == self@.len(),
    {
        self.clients.len()
    }
}

/// The client for a connection request is set up with the request's own
/// settings, each defaulted where the request lacks it: the URL is the
/// protocol (`https` with TLS, `http` without), the host (`localhost`) and the
/// port (8123); the user is the request's username (`default`); the password
/// is its password (empty); the database is its database (`default`); and no
/// access token is set.
pub proof fn lemma_client_follows_request(req: ConnectionRequest)
    ensures
        ({
            let s = configured(target_of(resolved(req)));
            let host = match req.host {
                Some(h) => h@,
                None => "localhost"@,
            };
            let port: nat = match req.port {
                Some(p) => p as nat,
                None => 8123,
            };
            let secure = match req.ssl {
                Some(b) => b,
                None => false,
            };
            &&& s.url == (if secure {
                "https"@
            } else {
                "http"@
            }) + "://"@ + host + ":"@ + decimal(port)
            &&& s.user == Some(
                match req.username {
                    Some(u) => u@,
                    None => "default"@,
                },
            )
            &&& s.password == Some(
                match req.password {
                    Some(w) => w@,
                    None => ""@,
                },
            )
            &&& s.database == Some(
                match req.database {
                    Some(d) => d@,
                    None => "default"@,
                },
            )
            &&& !s.access_token
        }),
{
}

/// Pooling: asking twice for the same connection hands out the same client,
/// and the second request leaves the pool as the first left it.
pub proof fn lemma_pool_reuses_clients(
    p0: Map<Seq<char>, ConfiguredClient>,
    p1: Map<Seq<char>, ConfiguredClient>,
    p2: Map<Seq<char>, ConfiguredClient>,
    key: Seq<char>,
    c1: ConfiguredClient,
    c2: ConfiguredClient,
)
    requires
        pooled(p0, p1, key, c1),
        pooled(p1, p2, key, c2),
    ensures
        c1 == c2,
        p2 == p1,
{
}

/// A client, once pooled, stays: whatever other connections are asked for
/// later, the client kept for a key is the one first made for it.
pub proof fn lemma_pool_keeps_clients(
    p0: Map<Seq<char>, ConfiguredClient>,
    p1: Map<Seq<char>, ConfiguredClient>,
    key: Seq<char>,
    other: Seq<char>,
    c: ConfiguredClient,
)
    requires
        p0.contains_key(key),
        pooled(p0, p1, other, c),
    ensures
        p1.contains_key(key),
        p1[key] == p0[key],
{
}

} // verus!
