//! The server: the registry that its workers share, and what it does
//! when a connection is accepted.

use crate::addr::PeerAddr;
use crate::connection::{Connection, ConnectionView};
use crate::registry::{Registry, RegistryView};
use vstd::prelude::*;

verus! {

/// The server. The one who runs it listens on `portnum`, and hands each
/// accepted connection to `accept`.
pub struct IrcServer {
    /// what the workers share
    pub registry: Registry,
    /// the port to listen on
    pub portnum: u16,
}

impl IrcServer {
    /// A server with nobody connected.
    pub fn new(portnum: u16) -> (r: Self)
        ensures
            r.portnum == portnum,
            r.registry.wf(),
            r.registry@ == RegistryView::empty(),
            r.registry@.inv(),
    {
        proof {
            RegistryView::lemma_empty_inv();
        }
        IrcServer { registry: Registry::new(), portnum: portnum }
    }

    /// Takes in an accepted connection: the peer gets a mailbox, and the
    /// worker for the connection is handed back. A peer that is connected
    /// already is turned away, and nothing changes.
    pub fn accept(&mut self, local_addr: PeerAddr, peer_addr: PeerAddr) -> (r: Option<Connection>)
        requires
            old(self).registry.wf(),
            old(self).registry@.inv(),
        ensures
            final(self).portnum == old(self).portnum,
            final(self).registry.wf(),
            final(self).registry@.inv(),
            match r {
                Some(conn) => {
                    &&& !old(self).registry@.connected(peer_addr)
                    &&& final(self).registry@ == old(self).registry@.register_mailbox(peer_addr)
                    &&& conn@ == (ConnectionView { nickname: None, local_addr, peer_addr })
                    &&& conn@.attached(final(self).registry@)
                },
                None => {
                    &&& old(self).registry@.connected(peer_addr)
                    &&& final(self).registry@ == old(self).registry@
                },
            },
    {
        if self.registry.is_connected(peer_addr) {
            None
        } else {
            proof {
                self.registry@.lemma_register_mailbox_inv(peer_addr);
                self.registry@.lemma_unconnected_has_no_trace(peer_addr);
            }
            self.registry.register_mailbox(peer_addr);
            Some(Connection::new(local_addr, peer_addr))
        }
    }
}

} // verus!
