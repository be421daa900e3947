use vstd::prelude::*;

use crate::mac::{default_client_name, normalize_mac, normalized};
use crate::model::{DisplayConfig, DisplayConfigView};

verus! {

/// HTTP port used when the configuration names none.
pub const DEFAULT_HTTP_PORT: u16 = 25555;

/// Lowest port the HTTP server may be moved to.
pub const MIN_HTTP_PORT: u16 = 1024;

/// A display client, keyed by its normalized hardware address.
#[derive(Clone, Debug)]
pub struct RegisteredClient {
    pub mac_address: String,
    pub name: String,
    pub ip_address: String,
    pub resolution_width: u32,
    pub resolution_height: u32,
    pub active: bool,
    /// Unix seconds of the last registration or data request.
    pub last_seen: u64,
    /// Unix seconds of the first registration.
    pub registered_at: u64,
    pub display_config: DisplayConfig,
}

/// What a registered client is, as plain values.
pub struct ClientView {
    pub mac_address: Seq<char>,
    pub name: Seq<char>,
    pub ip_address: Seq<char>,
    pub resolution_width: u32,
    pub resolution_height: u32,
    pub active: bool,
    pub last_seen: u64,
    pub registered_at: u64,
    pub display_config: DisplayConfigView,
}

impl View for RegisteredClient {
    type V = ClientView;

    open spec fn view(&self) -> ClientView {
        ClientView {
            mac_address: self.mac_address@,
            name: self.name@,
            ip_address: self.ip_address@,
            resolution_width: self.resolution_width,
            resolution_height: self.resolution_height,
            active: self.active,
            last_seen: self.last_seen,
            registered_at: self.registered_at,
            display_config: self.display_config@,
        }
    }
}

/// The application configuration: the registered clients and the HTTP port.
#[derive(Clone, Debug)]
pub struct AppConfig {
    pub registered_clients: Vec<RegisteredClient>,
    pub http_port: u16,
}

pub struct AppConfigView {
    pub clients: Seq<ClientView>,
    pub http_port: u16,
}

impl View for AppConfig {
    type V = AppConfigView;

    open spec fn view(&self) -> AppConfigView {
        AppConfigView { clients: clients_view(self.registered_clients@), http_port: self.http_port }
    }
}

/// Legacy per-device configuration, kept so that older configuration files still load.
#[derive(Clone, Debug)]
pub struct NetworkDeviceConfig {
    pub id: String,
    pub name: String,
    pub address: String,
    pub active: bool,
    pub display_config: DisplayConfig,
}

pub open spec fn clients_view(s: Seq<RegisteredClient>) -> Seq<ClientView> {
    s.map_values(|c: RegisteredClient| c@)
}

/// No two clients share a key.
pub open spec fn keys_unique(s: Seq<ClientView>) -> bool {
    forall|i: int, j: int|
        0 <= i < s.len() && 0 <= j < s.len() && i != j ==> (#[trigger] s[i]).mac_address
            != (#[trigger] s[j]).mac_address
}

/// Every key is in normal form.
pub open spec fn keys_normalized(s: Seq<ClientView>) -> bool {
    forall|i: int| 0 <= i < s.len() ==> normalized((#[trigger] s[i]).mac_address) == s[i].mac_address
}

pub open spec fn registry_wf(s: Seq<ClientView>) -> bool {
    keys_unique(s) && keys_normalized(s)
}

pub open spec fn has_client(s: Seq<ClientView>, key: Seq<char>) -> bool {
    exists|i: int| 0 <= i < s.len() && (#[trigger] s[i]).mac_address == key
}

/// Number of clients stored under `key`.
pub open spec fn count_key(s: Seq<ClientView>, key: Seq<char>) -> nat
    decreases s.len(),
{
    if s.len() == 0 {
        0
    } else {
        count_key(s.drop_last(), key) + if s.last().mac_address == key {
            1nat
        } else {
            0nat
        }
    }
}

pub open spec fn renamed(s: Seq<ClientView>, key: Seq<char>, name: Seq<char>) -> Seq<ClientView> {
    s.map_values(|c: ClientView| if c.mac_address == key { ClientView { name, ..c } } else { c })
}

pub open spec fn with_active(s: Seq<ClientView>, key: Seq<char>, active: bool) -> Seq<ClientView> {
    s.map_values(|c: ClientView| if c.mac_address == key { ClientView { active, ..c } } else { c })
}

pub open spec fn with_display_config(
    s: Seq<ClientView>,
    key: Seq<char>,
    display_config: DisplayConfigView,
) -> Seq<ClientView> {
    s.map_values(
        |c: ClientView|
            if c.mac_address == key {
                ClientView { display_config, ..c }
            } else {
                c
            },
    )
}

pub open spec fn max_u64(a: u64, b: u64) -> u64 {
    if a < b {
        b
    } else {
        a
    }
}

/// Default display name for the key: `Display ` and its first eight characters.
pub open spec fn default_name(key: Seq<char>) -> Seq<char> {
    "Display "@ + key.take(if key.len() < 8 { key.len() as int } else { 8 })
}

/// A client as first registered: inactive, named after its key, with an empty layout of its size.
pub open spec fn new_client(key: Seq<char>, ip: Seq<char>, w: u32, h: u32, now: u64) -> ClientView {
    ClientView {
        mac_address: key,
        name: default_name(key),
        ip_address: ip,
        resolution_width: w,
        resolution_height: h,
        active: false,
        last_seen: now,
        registered_at: now,
        display_config: DisplayConfigView {
            resolution_width: w,
            resolution_height: h,
            elements: Seq::empty(),
        },
    }
}

/// A known client on re-registration: address, size and liveness refreshed; name, activation
/// and layout kept. The liveness clock never goes back.
pub open spec fn refreshed(c: ClientView, ip: Seq<char>, w: u32, h: u32, now: u64) -> ClientView {
    ClientView {
        ip_address: ip,
        resolution_width: w,
        resolution_height: h,
        last_seen: max_u64(c.last_seen, now),
        ..c
    }
}

/// The registry after a registration under `key`.
pub open spec fn registered(
    s: Seq<ClientView>,
    key: Seq<char>,
    ip: Seq<char>,
    w: u32,
    h: u32,
    now: u64,
) -> Seq<ClientView> {
    if has_client(s, key) {
        s.map_values(
            |c: ClientView|
                if c.mac_address == key {
                    refreshed(c, ip, w, h, now)
                } else {
                    c
                },
        )
    } else {
        s.push(new_client(key, ip, w, h, now))
    }
}

/// The registry without the client under `key`.
pub open spec fn removed(s: Seq<ClientView>, key: Seq<char>) -> Seq<ClientView> {
    if has_client(s, key) {
        s.remove(choose|i: int| 0 <= i < s.len() && (#[trigger] s[i]).mac_address == key)
    } else {
        s
    }
}

pub open spec fn not_found_message(mac: Seq<char>) -> Seq<char> {
    "Client with MAC address "@ + mac + " not found"@
}

proof fn lemma_count_key_absent(s: Seq<ClientView>, key: Seq<char>)
    requires
        !has_client(s, key),
    ensures
        count_key(s, key) == 0,
    decreases s.len(),
{
    if s.len() > 0 {
        assert(!has_client(s.drop_last(), key)) by {
            if has_client(s.drop_last(), key) {
                let i = choose|i: int|
                    0 <= i < s.drop_last().len() && (#[trigger] s.drop_last()[i]).mac_address
                        == key;
                assert(s[i] == s.drop_last()[i]);
            }
        }
        assert(s.last() == s[s.len() - 1]);
        lemma_count_key_absent(s.drop_last(), key);
    }
}

proof fn lemma_count_key_unique(s: Seq<ClientView>, key: Seq<char>)
    requires
        keys_unique(s),
        has_client(s, key),
    ensures
        count_key(s, key) == 1,
    decreases s.len(),
{
    let p = s.drop_last();
    assert(keys_unique(p)) by {
        assert forall|i: int, j: int|
            0 <= i < p.len() && 0 <= j < p.len() && i != j implies (#[trigger] p[i]).mac_address
            != (#[trigger] p[j]).mac_address by {
            assert(p[i] == s[i] && p[j] == s[j]);
        }
    }
    if s.last().mac_address == key {
        assert(!has_client(p, key)) by {
            if has_client(p, key) {
                let i = choose|i: int| 0 <= i < p.len() && (#[trigger] p[i]).mac_address == key;
                assert(s[i] == p[i]);
                assert(s[s.len() - 1] == s.last());
            }
        }
        lemma_count_key_absent(p, key);
    } else {
        let i = choose|i: int| 0 <= i < s.len() && (#[trigger] s[i]).mac_address == key;
        assert(i != s.len() - 1);
        assert(p[i] == s[i]);
        lemma_count_key_unique(p, key);
    }
}

/// Message of the error for an unknown client.
fn not_found(mac_address: &str) -> (r: String)
    ensures
        r@ == not_found_message(mac_address@),
{
    let mut r = String::from_str("Client with MAC address ");
    r.append(mac_address);
    r.append(" not found");
    r
}

impl RegisteredClient {
    /// A newly registered client: inactive, seen and registered at `now`, with an empty layout
    /// of its resolution.
    pub fn new(
        mac_address: String,
        name: String,
        ip_address: String,
        resolution_width: u32,
        resolution_height: u32,
        now: u64,
    ) -> (r: Self)
        ensures
            r@ == (ClientView {
                mac_address: mac_address@,
                name: name@,
                ip_address: ip_address@,
                resolution_width,
                resolution_height,
                active: false,
                last_seen: now,
                registered_at: now,
                display_config: DisplayConfigView {
                    resolution_width,
                    resolution_height,
                    elements: Seq::empty(),
                },
            }),
    {
        RegisteredClient {
            mac_address,
            name,
            ip_address,
            resolution_width,
            resolution_height,
            active: false,
            last_seen: now,
            registered_at: now,
            display_config: DisplayConfig::empty(resolution_width, resolution_height),
        }
    }

    /// Moves the liveness clock to `now`; it never goes back.
    pub fn update_last_seen(&mut self, now: u64)
        ensures
            final(self)@ == (ClientView { last_seen: max_u64(old(self).last_seen, now), ..old(self)@ }),
    {
        if self.last_seen < now {
            self.last_seen = now;
        }
    }

    /// Whether the client was seen less than `timeout_seconds` before `now`.
    pub fn is_recently_active(&self, timeout_seconds: u64, now: u64) -> (r: bool)
        ensures
            r == (now <= self.last_seen || now - self.last_seen < timeout_seconds),
    {
        if now <= self.last_seen {
            true
        } else {
            now - self.last_seen < timeout_seconds
        }
    }

    pub fn duplicate(&self) -> (r: Self)
        ensures
            r@ == self@,
    {
        RegisteredClient {
            mac_address: self.mac_address.clone(),
            name: self.name.clone(),
            ip_address: self.ip_address.clone(),
            resolution_width: self.resolution_width,
            resolution_height: self.resolution_height,
            active: self.active,
            last_seen: self.last_seen,
            registered_at: self.registered_at,
            display_config: self.display_config.duplicate(),
        }
    }
}

/// Index of the client stored under `key`.
pub(crate) fn find_client(clients: &Vec<RegisteredClient>, key: &String) -> (r: Option<usize>)
    ensures
        match r {
            Some(i) => i < clients@.len() && clients@[i as int].mac_address@ == key@,
            None => !has_client(clients_view(clients@), key@),
        },
{
    let mut i: usize = 0;
    while i < clients.len()
        invariant
            i <= clients@.len(),
            forall|k: int| 0 <= k < i ==> (#[trigger] clients@[k]).mac_address@ != key@,
        decreases clients@.len() - i,
    {
        if clients[i].mac_address == *key {
            return Some(i);
        }
        i = i + 1;
    }
    proof {
        if has_client(clients_view(clients@), key@) {
            let k = choose|k: int|
                0 <= k < clients_view(clients@).len() && (#[trigger] clients_view(
                    clients@,
                )[k]).mac_address == key@;
            assert(clients@[k]@ == clients_view(clients@)[k]);
        }
    }
    None
}

/// Replaces the client at `i` with `c`.
pub(crate) fn replace_client(clients: &mut Vec<RegisteredClient>, i: usize, c: RegisteredClient)
    requires
        i < old(clients)@.len(),
    ensures
        final(clients)@ == old(clients)@.update(i as int, c),
{
    clients.remove(i);
    clients.insert(i, c);
    assert(clients@ =~= old(clients)@.update(i as int, c));
}

/// Under unique keys, changing the client at the key's index is changing every client with
/// that key.
pub(crate) proof fn lemma_update_is_map(
    s: Seq<RegisteredClient>,
    i: int,
    c: RegisteredClient,
    f: spec_fn(ClientView) -> ClientView,
)
    requires
        keys_unique(clients_view(s)),
        0 <= i < s.len(),
        c@ == f(s[i]@),
    ensures
        clients_view(s.update(i, c)) =~= clients_view(s).map_values(
            |v: ClientView|
                if v.mac_address == s[i].mac_address@ {
                    f(v)
                } else {
                    v
                },
        ),
{
    let key = s[i].mac_address@;
    assert forall|j: int| 0 <= j < s.len() && j != i implies (#[trigger] s[j])@.mac_address
        != key by {
        assert(clients_view(s)[j] == s[j]@);
        assert(clients_view(s)[i] == s[i]@);
    }
}

proof fn lemma_map_absent(s: Seq<ClientView>, key: Seq<char>, f: spec_fn(ClientView) -> ClientView)
    requires
        !has_client(s, key),
    ensures
        s.map_values(|v: ClientView| if v.mac_address == key { f(v) } else { v }) =~= s,
{
    assert forall|j: int| 0 <= j < s.len() implies (#[trigger] s[j]).mac_address != key by {
        if s[j].mac_address == key {
            assert(has_client(s, key));
        }
    }
}

/// A map over one key keeps keys and their uniqueness and normal form.
pub(crate) proof fn lemma_map_keeps_wf(s: Seq<ClientView>, key: Seq<char>, f: spec_fn(ClientView) -> ClientView)
    requires
        registry_wf(s),
        forall|v: ClientView| #[trigger] f(v).mac_address == v.mac_address,
    ensures
        registry_wf(s.map_values(|v: ClientView| if v.mac_address == key { f(v) } else { v })),
{
    let t = s.map_values(|v: ClientView| if v.mac_address == key { f(v) } else { v });
    assert forall|i: int| 0 <= i < t.len() implies (#[trigger] t[i]).mac_address
        == s[i].mac_address by {
        assert(f(s[i]).mac_address == s[i].mac_address);
    }
    assert forall|i: int, j: int|
        0 <= i < t.len() && 0 <= j < t.len() && i != j implies (#[trigger] t[i]).mac_address
        != (#[trigger] t[j]).mac_address by {
        assert(t[i].mac_address == s[i].mac_address);
        assert(t[j].mac_address == s[j].mac_address);
    }
    assert forall|i: int| 0 <= i < t.len() implies normalized((#[trigger] t[i]).mac_address)
        == t[i].mac_address by {
        assert(t[i].mac_address == s[i].mac_address);
    }
}

impl AppConfig {
    pub open spec fn wf(&self) -> bool {
        registry_wf(self@.clients)
    }

    /// An empty configuration on the default port.
    pub fn new() -> (r: Self)
        ensures
            r.wf(),
            r@.clients.len() == 0,
            r@.http_port == DEFAULT_HTTP_PORT,
    {
        let r = AppConfig { registered_clients: Vec::new(), http_port: default_http_port() };
        assert(r@.clients =~= Seq::<ClientView>::empty());
        r
    }

    /// The registered clients.
    pub fn clients(&self) -> (r: &Vec<RegisteredClient>)
        ensures
            clients_view(r@) == self@.clients,
    {
        &self.registered_clients
    }

    /// Builds a configuration from stored clients: each key is normalized, and of clients that
    /// share a normalized key the last one is kept.
    pub fn from_clients(clients: Vec<RegisteredClient>, http_port: u16) -> (r: Self)
        ensures
            r.wf(),
            r@.http_port == http_port,
            loaded(r@.clients, clients@, clients@.len() as int),
            registry_wf(clients_view(clients@)) ==> r@.clients == clients_view(clients@),
    {
        let mut r = AppConfig::new();
        r.http_port = http_port;
        let mut i: usize = 0;
        assert(clients_view(clients@.take(0)) =~= Seq::<ClientView>::empty());
        while i < clients.len()
            invariant
                i <= clients@.len(),
                r.wf(),
                r@.http_port == http_port,
                loaded(r@.clients, clients@, i as int),
                registry_wf(clients_view(clients@)) ==> r@.clients == clients_view(
                    clients@.take(i as int),
                ),
            decreases clients@.len() - i,
        {
            let mut c = clients[i].duplicate();
            let key = normalize_mac(&c.mac_address);
            c.mac_address = key.clone();
            let ghost old_s = r@.clients;
            let ghost old_rc = r.registered_clients@;
            proof {
                crate::mac::lemma_normalize_idempotent(clients@[i as int].mac_address@);
            }
            match find_client(&r.registered_clients, &key) {
                Some(x) => {
                    replace_client(&mut r.registered_clients, x, c);
                    proof {
                        assert(old_rc[x as int]@ == old_s[x as int]);
                        assert(old_s[x as int].mac_address == key@);
                        assert forall|k: int| 0 <= k < r@.clients.len() && k != x implies (
                        #[trigger] r@.clients[k]) == old_s[k] && old_s[k].mac_address != key@ by {
                            assert(r.registered_clients@[k] == old_rc[k]);
                            assert(old_rc[k]@ == old_s[k]);
                        }
                        assert(r@.clients[x as int] == c@);
                        lemma_rekeyed_step(old_s, r@.clients, x as int, clients@, i as int);
                        let v = clients_view(clients@);
                        if registry_wf(v) {
                            assert(old_s[x as int] == clients_view(clients@.take(i as int))[x as int]);
                            assert(v[x as int] == clients@[x as int]@);
                            assert(v[i as int] == clients@[i as int]@);
                            assert(v[x as int].mac_address == v[i as int].mac_address);
                        }
                    }
                },
                None => {
                    r.registered_clients.push(c);
                    proof {
                        assert forall|k: int| 0 <= k < old_s.len() implies (
                        #[trigger] r@.clients[k]) == old_s[k] && old_s[k].mac_address != key@ by {
                            assert(r.registered_clients@[k] == old_rc[k]);
                            assert(old_rc[k]@ == old_s[k]);
                            if old_s[k].mac_address == key@ {
                                assert(has_client(old_s, key@));
                            }
                        }
                        assert(r@.clients.len() == old_s.len() + 1);
                        assert(r@.clients[old_s.len() as int] == c@);
                        lemma_rekeyed_step(old_s, r@.clients, old_s.len() as int, clients@, i as int);
                        let v = clients_view(clients@);
                        if registry_wf(v) {
                            assert(v[i as int] == clients@[i as int]@);
                            assert(c@ == v[i as int]);
                            assert(r@.clients =~= clients_view(clients@.take(i + 1)));
                        }
                    }
                },
            }
            i = i + 1;
        }
        assert(loaded(r@.clients, clients@, clients@.len() as int));
        assert(clients@.take(clients@.len() as int) =~= clients@);
        r
    }
}

/// The first `i` stored clients are loaded into `s`: each of their keys is present, and each
/// client of `s` is the last of them under its key.
pub open spec fn loaded(s: Seq<ClientView>, input: Seq<RegisteredClient>, i: int) -> bool {
    &&& forall|a: int|
        0 <= a < i ==> has_client(s, normalized(#[trigger] input[a].mac_address@))
    &&& forall|k: int|
        0 <= k < s.len() ==> exists|a: int|
            0 <= a < i && #[trigger] s[k] == rekeyed(input[a]@) && forall|j: int|
                a < j < i ==> normalized(#[trigger] input[j].mac_address@) != s[k].mac_address
}

/// A stored client with its key in normal form.
pub open spec fn rekeyed(c: ClientView) -> ClientView {
    ClientView { mac_address: normalized(c.mac_address), ..c }
}

/// One step of loading: position `x` of `t` now holds input `i`, every other position is
/// unchanged from `s` and holds another key.
proof fn lemma_rekeyed_step(
    s: Seq<ClientView>,
    t: Seq<ClientView>,
    x: int,
    input: Seq<RegisteredClient>,
    i: int,
)
    requires
        0 <= i < input.len(),
        0 <= x < t.len(),
        t.len() == s.len() || (t.len() == s.len() + 1 && x == s.len()),
        registry_wf(s),
        t.len() == s.len() ==> s[x].mac_address == normalized(input[i].mac_address@),
        t[x] == rekeyed(input[i]@),
        normalized(normalized(input[i].mac_address@)) == normalized(input[i].mac_address@),
        forall|k: int|
            0 <= k < t.len() && k != x ==> (#[trigger] t[k]) == s[k] && s[k].mac_address
                != normalized(input[i].mac_address@),
        loaded(s, input, i),
    ensures
        registry_wf(t),
        loaded(t, input, i + 1),
{
    let key = normalized(input[i].mac_address@);
    assert forall|a: int, b: int|
        0 <= a < t.len() && 0 <= b < t.len() && a != b implies (#[trigger] t[a]).mac_address
        != (#[trigger] t[b]).mac_address by {
        if a != x && b != x {
            assert(t[a] == s[a] && t[b] == s[b]);
        }
    }
    assert forall|a: int| 0 <= a < i + 1 implies has_client(
        t,
        normalized(#[trigger] input[a].mac_address@),
    ) by {
        let ka = normalized(input[a].mac_address@);
        if ka == key {
            assert(t[x].mac_address == key);
        } else {
            let k = choose|k: int| 0 <= k < s.len() && (#[trigger] s[k]).mac_address == ka;
            assert(k != x || t.len() == s.len());
            if k == x {
                assert(s[x].mac_address == key);
            }
            assert(t[k] == s[k]);
        }
    }
    assert forall|k: int| 0 <= k < t.len() implies exists|a: int|
        0 <= a < i + 1 && #[trigger] t[k] == rekeyed(input[a]@) && forall|j: int|
            a < j < i + 1 ==> normalized(#[trigger] input[j].mac_address@) != t[k].mac_address by {
        if k == x {
            assert(t[x] == rekeyed(input[i]@));
        } else {
            assert(t[k] == s[k]);
            let a = choose|a: int|
                0 <= a < i && #[trigger] s[k] == rekeyed(input[a]@) && forall|j: int|
                    a < j < i ==> normalized(#[trigger] input[j].mac_address@) != s[k].mac_address;
            assert forall|j: int| a < j < i + 1 implies normalized(
                #[trigger] input[j].mac_address@,
            ) != t[k].mac_address by {
                if j < i {
                } else {
                    assert(j == i);
                }
            }
        }
    }
}


/// Default HTTP port.
pub fn default_http_port() -> (r: u16)
    ensures
        r == DEFAULT_HTTP_PORT,
{
    DEFAULT_HTTP_PORT
}

/// Registers a new client under the normal form of `mac_address`, or refreshes the address,
/// resolution and liveness of the known one. Never changes whether a client is active.
pub fn register_client(
    config: &mut AppConfig,
    mac_address: &str,
    ip_address: String,
    resolution_width: u32,
    resolution_height: u32,
    now: u64,
) -> (r: RegisteredClient)
    requires
        old(config).wf(),
    ensures
        final(config).wf(),
        final(config)@.http_port == old(config)@.http_port,
        final(config)@.clients == registered(
            old(config)@.clients,
            normalized(mac_address@),
            ip_address@,
            resolution_width,
            resolution_height,
            now,
        ),
        r@.mac_address == normalized(mac_address@),
        forall|i: int|
            0 <= i < final(config)@.clients.len() && (#[trigger] final(config)@.clients[i]).mac_address
                == r@.mac_address ==> final(config)@.clients[i] == r@,
        has_client(final(config)@.clients, r@.mac_address),
{
    let key = normalize_mac(mac_address);
    let ghost s = config@.clients;
    let ghost rc = config.registered_clients@;
    let ghost ip = ip_address@;
    proof {
        crate::mac::lemma_normalize_idempotent(mac_address@);
    }
    match find_client(&config.registered_clients, &key) {
        Some(i) => {
            let mut c = config.registered_clients[i].duplicate();
            c.ip_address = ip_address;
            c.resolution_width = resolution_width;
            c.resolution_height = resolution_height;
            c.update_last_seen(now);
            let ghost f = |v: ClientView| refreshed(v, ip, resolution_width, resolution_height, now);
            proof {
                assert(rc[i as int]@ == s[i as int]);
                lemma_update_is_map(rc, i as int, c, f);
                lemma_map_keeps_wf(s, key@, f);
                assert(has_client(s, key@)) by {
                    assert(s[i as int].mac_address == key@);
                }
            }
            let out = c.duplicate();
            replace_client(&mut config.registered_clients, i, c);
            proof {
                assert(config@.clients =~= registered(
                    s,
                    key@,
                    ip,
                    resolution_width,
                    resolution_height,
                    now,
                ));
                assert forall|j: int|
                    0 <= j < config@.clients.len() && (#[trigger] config@.clients[j]).mac_address
                        == out@.mac_address implies config@.clients[j] == out@ by {
                    if j != i {
                        assert(config.registered_clients@[j] == rc[j]);
                        assert(s[j] == rc[j]@);
                        assert(s[j].mac_address != s[i as int].mac_address);
                    }
                }
                assert(config@.clients[i as int].mac_address == key@);
            }
            out
        },
        None => {
            let name = default_client_name(key.as_str());
            let c = RegisteredClient::new(
                key,
                name,
                ip_address,
                resolution_width,
                resolution_height,
                now,
            );
            let out = c.duplicate();
            config.registered_clients.push(c);
            proof {
                assert(config@.clients =~= s.push(out@));
                assert(out@ == new_client(key@, ip, resolution_width, resolution_height, now));
                assert forall|j: int| 0 <= j < s.len() implies (#[trigger] s[j]).mac_address
                    != key@ by {
                    if s[j].mac_address == key@ {
                        assert(has_client(s, key@));
                    }
                }
                assert(config@.clients[s.len() as int] == out@);
            }
            out
        },
    }
}

/// Renames the client stored under the normal form of `mac_address`.
pub fn update_client_name(config: &mut AppConfig, mac_address: &str, name: String) -> (r: Result<
    (),
    String,
>)
    requires
        old(config).wf(),
    ensures
        final(config).wf(),
        final(config)@.http_port == old(config)@.http_port,
        final(config)@.clients == renamed(old(config)@.clients, normalized(mac_address@), name@),
        r is Ok <==> has_client(old(config)@.clients, normalized(mac_address@)),
        r is Err ==> r->Err_0@ == not_found_message(mac_address@),
{
    let key = normalize_mac(mac_address);
    let ghost s = config@.clients;
    let ghost rc = config.registered_clients@;
    let ghost nm = name@;
    let ghost f = |v: ClientView| ClientView { name: nm, ..v };
    match find_client(&config.registered_clients, &key) {
        Some(i) => {
            let mut c = config.registered_clients[i].duplicate();
            c.name = name;
            proof {
                assert(rc[i as int]@ == s[i as int]);
                lemma_update_is_map(rc, i as int, c, f);
                lemma_map_keeps_wf(s, key@, f);
                assert(s[i as int].mac_address == key@);
            }
            replace_client(&mut config.registered_clients, i, c);
            assert(config@.clients =~= renamed(s, key@, nm));
            Ok(())
        },
        None => {
            proof {
                lemma_map_absent(s, key@, f);
            }
            assert(renamed(s, key@, nm) =~= s);
            Err(not_found(mac_address))
        },
    }
}

/// Activates or deactivates the client stored under the normal form of `mac_address`.
pub fn set_client_active(config: &mut AppConfig, mac_address: &str, active: bool) -> (r: Result<
    (),
    String,
>)
    requires
        old(config).wf(),
    ensures
        final(config).wf(),
        final(config)@.http_port == old(config)@.http_port,
        final(config)@.clients == with_active(old(config)@.clients, normalized(mac_address@), active),
        r is Ok <==> has_client(old(config)@.clients, normalized(mac_address@)),
        r is Err ==> r->Err_0@ == not_found_message(mac_address@),
{
    let key = normalize_mac(mac_address);
    let ghost s = config@.clients;
    let ghost rc = config.registered_clients@;
    let ghost f = |v: ClientView| ClientView { active, ..v };
    match find_client(&config.registered_clients, &key) {
        Some(i) => {
            let mut c = config.registered_clients[i].duplicate();
            c.active = active;
            proof {
                assert(rc[i as int]@ == s[i as int]);
                lemma_update_is_map(rc, i as int, c, f);
                lemma_map_keeps_wf(s, key@, f);
                assert(s[i as int].mac_address == key@);
            }
            replace_client(&mut config.registered_clients, i, c);
            assert(config@.clients =~= with_active(s, key@, active));
            Ok(())
        },
        None => {
            proof {
                lemma_map_absent(s, key@, f);
            }
            assert(with_active(s, key@, active) =~= s);
            Err(not_found(mac_address))
        },
    }
}

/// Replaces the layout of the client stored under the normal form of `mac_address`.
pub fn update_client_display_config(
    config: &mut AppConfig,
    mac_address: &str,
    display_config: DisplayConfig,
) -> (r: Result<(), String>)
    requires
        old(config).wf(),
    ensures
        final(config).wf(),
        final(config)@.http_port == old(config)@.http_port,
        final(config)@.clients == with_display_config(
            old(config)@.clients,
            normalized(mac_address@),
            display_config@,
        ),
        r is Ok <==> has_client(old(config)@.clients, normalized(mac_address@)),
        r is Err ==> r->Err_0@ == not_found_message(mac_address@),
{
    let key = normalize_mac(mac_address);
    let ghost s = config@.clients;
    let ghost rc = config.registered_clients@;
    let ghost dc = display_config@;
    let ghost f = |v: ClientView| ClientView { display_config: dc, ..v };
    match find_client(&config.registered_clients, &key) {
        Some(i) => {
            let mut c = config.registered_clients[i].duplicate();
            c.display_config = display_config;
            proof {
                assert(rc[i as int]@ == s[i as int]);
                lemma_update_is_map(rc, i as int, c, f);
                lemma_map_keeps_wf(s, key@, f);
                assert(s[i as int].mac_address == key@);
            }
            replace_client(&mut config.registered_clients, i, c);
            assert(config@.clients =~= with_display_config(s, key@, dc));
            Ok(())
        },
        None => {
            proof {
                lemma_map_absent(s, key@, f);
            }
            assert(with_display_config(s, key@, dc) =~= s);
            Err(not_found(mac_address))
        },
    }
}

/// The client stored under the normal form of `mac_address`.
pub fn get_client(config: &AppConfig, mac_address: &str) -> (r: Option<RegisteredClient>)
    requires
        config.wf(),
    ensures
        r is Some <==> has_client(config@.clients, normalized(mac_address@)),
        r is Some ==> r->0@.mac_address == normalized(mac_address@) && forall|i: int|
            0 <= i < config@.clients.len() && (#[trigger] config@.clients[i]).mac_address
                == normalized(mac_address@) ==> config@.clients[i] == r->0@,
{
    let key = normalize_mac(mac_address);
    match find_client(&config.registered_clients, &key) {
        Some(i) => {
            let c = config.registered_clients[i].duplicate();
            proof {
                assert(config@.clients[i as int] == config.registered_clients@[i as int]@);
                assert forall|j: int|
                    0 <= j < config@.clients.len() && (#[trigger] config@.clients[j]).mac_address
                        == key@ implies config@.clients[j] == c@ by {
                    assert(config@.clients[j] == config.registered_clients@[j]@);
                }
                assert(has_client(config@.clients, key@));
            }
            Some(c)
        },
        None => None,
    }
}

/// Removes the client stored under the normal form of `mac_address`.
pub fn remove_client(config: &mut AppConfig, mac_address: &str) -> (r: Result<(), String>)
    requires
        old(config).wf(),
    ensures
        final(config).wf(),
        final(config)@.http_port == old(config)@.http_port,
        final(config)@.clients == removed(old(config)@.clients, normalized(mac_address@)),
        !has_client(final(config)@.clients, normalized(mac_address@)),
        r is Ok <==> has_client(old(config)@.clients, normalized(mac_address@)),
        r is Err ==> r->Err_0@ == not_found_message(mac_address@),
{
    let key = normalize_mac(mac_address);
    let ghost s = config@.clients;
    let ghost rc = config.registered_clients@;
    match find_client(&config.registered_clients, &key) {
        Some(i) => {
            config.registered_clients.remove(i);
            proof {
                assert(s[i as int] == rc[i as int]@);
                assert(has_client(s, key@));
                let c = choose|c: int| 0 <= c < s.len() && (#[trigger] s[c]).mac_address == key@;
                if c != i as int {
                    assert(s[c].mac_address != s[i as int].mac_address);
                }
                s.remove_ensures(i as int);
                assert(config@.clients =~= s.remove(i as int));
                assert forall|j: int| 0 <= j < config@.clients.len() implies (
                #[trigger] config@.clients[j]).mac_address != key@ by {
                    if j < i {
                        assert(config@.clients[j] == s[j]);
                    } else {
                        assert(config@.clients[j] == s[j + 1]);
                    }
                }
                assert forall|a: int, b: int|
                    0 <= a < config@.clients.len() && 0 <= b < config@.clients.len() && a
                        != b implies (#[trigger] config@.clients[a]).mac_address != (
                    #[trigger] config@.clients[b]).mac_address by {
                    let a0 = if a < i { a } else { a + 1 };
                    let b0 = if b < i { b } else { b + 1 };
                    assert(config@.clients[a] == s[a0]);
                    assert(config@.clients[b] == s[b0]);
                }
                assert forall|a: int| 0 <= a < config@.clients.len() implies normalized(
                    (#[trigger] config@.clients[a]).mac_address,
                ) == config@.clients[a].mac_address by {
                    let a0 = if a < i { a } else { a + 1 };
                    assert(config@.clients[a] == s[a0]);
                }
            }
            Ok(())
        },
        None => Err(not_found(mac_address)),
    }
}

/// The port the HTTP server listens on.
pub fn get_http_port(config: &AppConfig) -> (r: u16)
    ensures
        r == config@.http_port,
{
    config.http_port
}

/// Moves the HTTP server to `port`; ports below 1024 are refused.
pub fn set_http_port(config: &mut AppConfig, port: u16) -> (r: Result<(), String>)
    ensures
        r is Err <==> port < MIN_HTTP_PORT,
        r is Ok ==> final(config)@ == (AppConfigView { http_port: port, ..old(config)@ }),
        r is Err ==> final(config)@ == old(config)@ && r->Err_0@
            == "Port must be between 1024 and 65535"@,
{
    if port < MIN_HTTP_PORT {
        return Err(String::from_str("Port must be between 1024 and 65535"));
    }
    config.http_port = port;
    Ok(())
}

/// A registration keeps the registry well formed and leaves the key present.
pub proof fn lemma_registered_wf(
    s: Seq<ClientView>,
    key: Seq<char>,
    ip: Seq<char>,
    w: u32,
    h: u32,
    now: u64,
)
    requires
        registry_wf(s),
        normalized(key) == key,
    ensures
        registry_wf(registered(s, key, ip, w, h, now)),
        has_client(registered(s, key, ip, w, h, now), key),
        registered(s, key, ip, w, h, now).len() == if has_client(s, key) {
            s.len()
        } else {
            s.len() + 1
        },
{
    let t = registered(s, key, ip, w, h, now);
    if has_client(s, key) {
        let f = |v: ClientView| refreshed(v, ip, w, h, now);
        lemma_map_keeps_wf(s, key, f);
        let i = choose|i: int| 0 <= i < s.len() && (#[trigger] s[i]).mac_address == key;
        assert(t[i].mac_address == key);
    } else {
        assert forall|a: int, b: int|
            0 <= a < t.len() && 0 <= b < t.len() && a != b implies (#[trigger] t[a]).mac_address
            != (#[trigger] t[b]).mac_address by {
            if a < s.len() && b < s.len() {
                assert(t[a] == s[a] && t[b] == s[b]);
            } else if a < s.len() {
                assert(t[a] == s[a]);
                if s[a].mac_address == key {
                    assert(has_client(s, key));
                }
            } else {
                assert(t[b] == s[b]);
                if s[b].mac_address == key {
                    assert(has_client(s, key));
                }
            }
        }
        assert forall|a: int| 0 <= a < t.len() implies normalized((#[trigger] t[a]).mac_address)
            == t[a].mac_address by {
            if a < s.len() {
                assert(t[a] == s[a]);
            }
        }
        assert(t[s.len() as int].mac_address == key);
    }
}

/// Registering under two spellings of one hardware address (any mix of letter case and
/// separators) leaves exactly one entry for it.
pub proof fn lemma_register_spellings_single_entry(
    s: Seq<ClientView>,
    x: Seq<char>,
    y: Seq<char>,
    ip1: Seq<char>,
    w1: u32,
    h1: u32,
    t1: u64,
    ip2: Seq<char>,
    w2: u32,
    h2: u32,
    t2: u64,
)
    requires
        registry_wf(s),
        normalized(x) == normalized(y),
    ensures
        count_key(
            registered(registered(s, normalized(x), ip1, w1, h1, t1), normalized(y), ip2, w2, h2, t2),
            normalized(x),
        ) == 1,
        registered(registered(s, normalized(x), ip1, w1, h1, t1), normalized(y), ip2, w2, h2, t2).len()
            == if has_client(s, normalized(x)) {
            s.len()
        } else {
            s.len() + 1
        },
{
    let key = normalized(x);
    crate::mac::lemma_normalize_idempotent(x);
    lemma_registered_wf(s, key, ip1, w1, h1, t1);
    let s1 = registered(s, key, ip1, w1, h1, t1);
    lemma_registered_wf(s1, key, ip2, w2, h2, t2);
    lemma_count_key_unique(registered(s1, key, ip2, w2, h2, t2), key);
}

/// Registration never activates a client: clients already known keep their activation, and a
/// new one is inactive.
pub proof fn lemma_register_never_activates(
    s: Seq<ClientView>,
    key: Seq<char>,
    ip: Seq<char>,
    w: u32,
    h: u32,
    now: u64,
)
    ensures
        forall|i: int|
            0 <= i < s.len() ==> (#[trigger] registered(s, key, ip, w, h, now)[i]).active
                == s[i].active,
        forall|i: int|
            s.len() <= i < registered(s, key, ip, w, h, now).len() ==> !(
            #[trigger] registered(s, key, ip, w, h, now)[i]).active,
{
}

/// Of the registry updates, only activation changes whether a client is active: renaming and
/// a new layout keep every client's activation, and activation sets it for the key alone.
pub proof fn lemma_only_set_active_activates(
    s: Seq<ClientView>,
    key: Seq<char>,
    name: Seq<char>,
    display_config: DisplayConfigView,
    active: bool,
)
    ensures
        renamed(s, key, name).len() == s.len(),
        with_display_config(s, key, display_config).len() == s.len(),
        with_active(s, key, active).len() == s.len(),
        forall|i: int|
            0 <= i < s.len() ==> (#[trigger] renamed(s, key, name)[i]).active == s[i].active,
        forall|i: int|
            0 <= i < s.len() ==> (#[trigger] with_display_config(s, key, display_config)[i]).active
                == s[i].active,
        forall|i: int|
            0 <= i < s.len() ==> (#[trigger] with_active(s, key, active)[i]).active == if s[i].mac_address
                == key {
                active
            } else {
                s[i].active
            },
{
}

/// Relies on uuid::Uuid::new_v4 and on `Display` of a uuid, which writes its hyphenated
/// form of 36 characters.
#[verifier::external_body]
fn new_device_id() -> (r: String)
    ensures
        r@.len() == 36,
{
    uuid::Uuid::new_v4().to_string()
}

impl NetworkDeviceConfig {
    /// A new inactive device with a fresh random id, no address and an empty layout.
    pub fn default() -> (r: NetworkDeviceConfig)
        ensures
            r.id@.len() == 36,
            r.name@ == "A new device"@,
            r.address@.len() == 0,
            !r.active,
            r.display_config@ == (DisplayConfigView {
                resolution_width: 0,
                resolution_height: 0,
                elements: Seq::empty(),
            }),
    {
        NetworkDeviceConfig {
            id: new_device_id(),
            name: String::from_str("A new device"),
            address: String::new(),
            active: false,
            display_config: DisplayConfig::empty(0, 0),
        }
    }
}

/// Creates a legacy device configuration (kept for older front ends; nothing is stored).
pub fn create_network_device_config() -> (r: NetworkDeviceConfig)
    ensures
        r.id@.len() == 36,
        r.name@ == "A new device"@,
        !r.active,
{
    let new_config = NetworkDeviceConfig::default();
    write(&new_config);
    new_config
}

/// Legacy store of a device configuration: devices now register themselves, so nothing is
/// written.
pub fn write(_net_port_config: &NetworkDeviceConfig) {
}

/// Legacy removal of a device configuration: nothing is stored, so nothing is removed.
pub fn remove(_network_device_id: &str) {
}

/// Legacy lookup of a device configuration: none is stored any more.
pub fn read(_network_device_id: &str) -> (r: Option<NetworkDeviceConfig>)
    ensures
        r is None,
{
    None
}

} // verus!
