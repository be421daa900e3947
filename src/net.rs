use vstd::prelude::*;

use crate::model::DisplayConfig;

verus! {

/// Clients of the push server are dropped when not seen for this long, in milliseconds.
pub const CLIENT_TIMEOUT_MS: u64 = 30_000;

/// A client of the push server.
#[derive(Clone, Debug)]
pub struct ClientInfo {
    pub id: String,
    pub name: String,
    pub display_config: DisplayConfig,
    /// Milliseconds on the server's monotonic clock.
    pub last_seen: u64,
}

/// The client was seen within the timeout before `now`.
pub open spec fn is_recent(c: ClientInfo, now: u64) -> bool {
    now <= c.last_seen || now - c.last_seen <= CLIENT_TIMEOUT_MS
}

/// The clients seen within the timeout, in their order.
pub open spec fn recent_clients(s: Seq<ClientInfo>, now: u64) -> Seq<ClientInfo>
    decreases s.len(),
{
    if s.len() == 0 {
        Seq::empty()
    } else if is_recent(s.last(), now) {
        recent_clients(s.drop_last(), now).push(s.last())
    } else {
        recent_clients(s.drop_last(), now)
    }
}

/// Removes the clients that have not been seen for more than 30 seconds.
pub fn cleanup_old_clients(clients: &mut Vec<ClientInfo>, now: u64)
    ensures
        final(clients)@ == recent_clients(old(clients)@, now),
{
    let mut kept: Vec<ClientInfo> = Vec::new();
    let ghost all = clients@;
    let n = clients.len();
    let mut i: usize = 0;
    assert(all.skip(0) =~= all);
    assert(all.take(0) =~= Seq::<ClientInfo>::empty());
    while clients.len() > 0
        invariant
            i + clients@.len() == all.len(),
            all.len() == n,
            clients@ == all.skip(i as int),
            kept@ == recent_clients(all.take(i as int), now),
        decreases clients@.len(),
    {
        let c = clients.remove(0);
        assert(all.take(i + 1).drop_last() =~= all.take(i as int));
        assert(all.take(i + 1).last() == c);
        let recent = now <= c.last_seen || now - c.last_seen <= CLIENT_TIMEOUT_MS;
        if recent {
            kept.push(c);
        }
        i = i + 1;
        assert(clients@ =~= all.skip(i as int));
    }
    assert(all.take(all.len() as int) =~= all);
    clients.append(&mut kept);
    assert(clients@ =~= recent_clients(all, now));
}

} // verus!
