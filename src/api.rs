use vstd::prelude::*;

use crate::config::{
    has_client, max_u64, register_client, registered, AppConfig, ClientView,
    RegisteredClient,
};
use crate::mac::{normalize_mac, normalized};
use crate::model::DisplayConfig;
use crate::sensor::SensorValue;

verus! {

/// Resolution assumed for a registration that names none.
pub const DEFAULT_RESOLUTION_WIDTH: u64 = 1920;

pub const DEFAULT_RESOLUTION_HEIGHT: u64 = 1080;

/// Why a request of the serving plane was refused.
#[derive(Clone, Debug)]
pub enum ApiError {
    NotRegistered,
    NotActive,
    BadRequest(String),
    InternalError(String),
}

impl ApiError {
    /// The HTTP status answered for this error.
    pub fn status_code(&self) -> (r: u16)
        ensures
            r == match self {
                ApiError::NotRegistered => 404u16,
                ApiError::NotActive => 403u16,
                ApiError::BadRequest(_) => 400u16,
                ApiError::InternalError(_) => 500u16,
            },
    {
        match self {
            ApiError::NotRegistered => 404,
            ApiError::NotActive => 403,
            ApiError::BadRequest(_) => 400,
            ApiError::InternalError(_) => 500,
        }
    }

    /// The message answered for this error.
    pub fn message(&self) -> (r: String)
        ensures
            r@ == match self {
                ApiError::NotRegistered => "Client not registered"@,
                ApiError::NotActive => "Client not active"@,
                ApiError::BadRequest(m) => m@,
                ApiError::InternalError(m) => m@,
            },
    {
        match self {
            ApiError::NotRegistered => String::from_str("Client not registered"),
            ApiError::NotActive => String::from_str("Client not active"),
            ApiError::BadRequest(m) => m.clone(),
            ApiError::InternalError(m) => m.clone(),
        }
    }
}

/// What a display needs to draw one frame.
#[derive(Clone, Debug)]
pub struct RenderData {
    pub display_config: DisplayConfig,
    pub sensor_values: Vec<SensorValue>,
}

/// The client stored under `key` (meaningful when there is one).
pub open spec fn client_of(s: Seq<ClientView>, key: Seq<char>) -> ClientView {
    s[choose|i: int| 0 <= i < s.len() && (#[trigger] s[i]).mac_address == key]
}

/// The registry after the client under `key` was seen at `now`.
pub open spec fn seen(s: Seq<ClientView>, key: Seq<char>, now: u64) -> Seq<ClientView> {
    s.map_values(
        |c: ClientView|
            if c.mac_address == key {
                ClientView { last_seen: max_u64(c.last_seen, now), ..c }
            } else {
                c
            },
    )
}

/// Answers a display's request for frame data: refused with `BadRequest` without an address,
/// `NotRegistered` for an unknown one, `NotActive` for an inactive client; otherwise the stored
/// layout. A known client's liveness clock moves to `now` whether or not it is active.
pub fn handle_sensor_data_request(config: &mut AppConfig, mac_address: Option<&str>, now: u64) -> (r:
    Result<DisplayConfig, ApiError>)
    requires
        old(config).wf(),
    ensures
        final(config).wf(),
        final(config)@.http_port == old(config)@.http_port,
        match mac_address {
            None => {
                &&& r matches Err(ApiError::BadRequest(m))
                &&& m@ == "mac_address parameter required"@
                &&& final(config)@ == old(config)@
            },
            Some(m) => {
                let key = normalized(m@);
                let s = old(config)@.clients;
                if !has_client(s, key) {
                    &&& r matches Err(ApiError::NotRegistered)
                    &&& final(config)@ == old(config)@
                } else {
                    &&& final(config)@.clients == seen(s, key, now)
                    &&& if client_of(s, key).active {
                        r matches Ok(d) && d@ == client_of(s, key).display_config
                    } else {
                        r matches Err(ApiError::NotActive)
                    }
                }
            },
        },
{
    let m = match mac_address {
        None => {
            return Err(ApiError::BadRequest(String::from_str("mac_address parameter required")));
        },
        Some(m) => m,
    };
    let key = normalize_mac(m);
    let ghost s = config@.clients;
    let ghost rc = config.registered_clients@;
    let ghost f = |c: ClientView| ClientView { last_seen: max_u64(c.last_seen, now), ..c };
    match crate::config::find_client(&config.registered_clients, &key) {
        None => Err(ApiError::NotRegistered),
        Some(i) => {
            let mut c = config.registered_clients[i].duplicate();
            c.update_last_seen(now);
            proof {
                assert(rc[i as int]@ == s[i as int]);
                assert(has_client(s, key@)) by {
                    assert(s[i as int].mac_address == key@);
                }
                let j = choose|j: int| 0 <= j < s.len() && (#[trigger] s[j]).mac_address == key@;
                if j != i {
                    assert(s[j].mac_address != s[i as int].mac_address);
                }
                crate::config::lemma_update_is_map(rc, i as int, c, f);
                crate::config::lemma_map_keeps_wf(s, key@, f);
            }
            let active = c.active;
            let d = c.display_config.duplicate();
            crate::config::replace_client(&mut config.registered_clients, i, c);
            assert(config@.clients =~= seen(s, key@, now));
            if active {
                Ok(d)
            } else {
                Err(ApiError::NotActive)
            }
        },
    }
}

/// Answers a registration: refused with `BadRequest` without an address or an IP; otherwise
/// the client is registered (or refreshed) with the given resolution, 1920×1080 when none is
/// given (each value truncated to 32 bits), and returned.
pub fn handle_client_registration(
    config: &mut AppConfig,
    mac_address: Option<&str>,
    ip_address: Option<&str>,
    resolution_width: Option<u64>,
    resolution_height: Option<u64>,
    now: u64,
) -> (r: Result<RegisteredClient, ApiError>)
    requires
        old(config).wf(),
    ensures
        final(config).wf(),
        final(config)@.http_port == old(config)@.http_port,
        mac_address is None ==> (r matches Err(ApiError::BadRequest(m)) && m@
            == "mac_address is required"@ && final(config)@ == old(config)@),
        mac_address is Some && ip_address is None ==> (r matches Err(ApiError::BadRequest(m)) && m@
            == "ip_address is required"@ && final(config)@ == old(config)@),
        mac_address is Some && ip_address is Some ==> {
            let w = match resolution_width {
                Some(v) => v,
                None => DEFAULT_RESOLUTION_WIDTH,
            };
            let h = match resolution_height {
                Some(v) => v,
                None => DEFAULT_RESOLUTION_HEIGHT,
            };
            let key = normalized(mac_address->0@);
            &&& final(config)@.clients == registered(
                old(config)@.clients,
                key,
                ip_address->0@,
                (w % 0x1_0000_0000) as u32,
                (h % 0x1_0000_0000) as u32,
                now,
            )
            &&& r matches Ok(c) && c@.mac_address == key && forall|i: int|
                0 <= i < final(config)@.clients.len() && (#[trigger] final(config)@.clients[i]).mac_address == key ==> final(config)@.clients[i] == c@
        },
{
    let mac = match mac_address {
        None => {
            return Err(ApiError::BadRequest(String::from_str("mac_address is required")));
        },
        Some(m) => m,
    };
    let ip = match ip_address {
        None => {
            return Err(ApiError::BadRequest(String::from_str("ip_address is required")));
        },
        Some(v) => v,
    };
    let w: u64 = match resolution_width {
        Some(v) => v,
        None => DEFAULT_RESOLUTION_WIDTH,
    };
    let h: u64 = match resolution_height {
        Some(v) => v,
        None => DEFAULT_RESOLUTION_HEIGHT,
    };
    let w32 = (w % 0x1_0000_0000) as u32;
    let h32 = (h % 0x1_0000_0000) as u32;
    let c = register_client(config, mac, String::from_str(ip), w32, h32, now);
    Ok(c)
}

/// The frame data served to a client: its layout and the current snapshot.
pub fn create_render_data_for_client(client: &RegisteredClient, sensor_values: Vec<SensorValue>) -> (r:
    RenderData)
    ensures
        r.display_config@ == client.display_config@,
        r.sensor_values@ == sensor_values@,
{
    RenderData { display_config: client.display_config.duplicate(), sensor_values }
}

} // verus!
