use vstd::prelude::*;

verus! {

/// Where a connected client comes from; each origin keeps its compositor
/// bookkeeping in the same record.
#[derive(Clone, Copy, Debug, PartialEq, Eq, Structural)]
pub enum ClientOrigin {
    /// A native client of the display protocol.
    Native,
    /// A client reached through the X11 compatibility server.
    XWayland,
}

/// The record the compositor keeps for one connected client.
#[derive(Clone, Copy, Debug, PartialEq, Eq, Structural)]
pub struct ClientData {
    pub client: u64,
    pub origin: ClientOrigin,
}

pub open spec fn client_ids_unique(clients: Seq<ClientData>) -> bool {
    forall|i: int, j: int|
        0 <= i < clients.len() && 0 <= j < clients.len() && clients[i].client == clients[j].client
            ==> i == j
}

pub open spec fn has_client(clients: Seq<ClientData>, client: u64) -> bool {
    exists|i: int| 0 <= i < clients.len() && clients[i].client == client
}

/// Position of the first record of `client`, if it has one.
pub fn find_client(clients: &Vec<ClientData>, client: u64) -> (r: Option<usize>)
    ensures
        r matches Some(i) ==> i < clients@.len() && clients@[i as int].client == client && forall|j: int|
            0 <= j < i ==> clients@[j].client != client,
        r is None <==> !has_client(clients@, client),
{
    let mut i: usize = 0;
    while i < clients.len()
        invariant
            i <= clients@.len(),
            forall|j: int| 0 <= j < i ==> clients@[j].client != client,
        decreases clients@.len() - i,
    {
        if clients[i].client == client {
            return Some(i);
        }
        i = i + 1;
    }
    None
}

} // verus!
