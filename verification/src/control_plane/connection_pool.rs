//! Connection pool for edge-node clients.
//!
//! Dialling a node anew for every request is a measurable cost under load.
//! [`NodeConnectionPool`] stores one channel per node. A channel is a lazily
//! connected, multiplexed transport that serves many calls at a time, and a
//! clone of it shares the transport, so the cost of connecting is paid at most
//! once per node.

use tonic::transport::{Channel, Endpoint};
use vstd::pervasive::cloned;
use vstd::prelude::*;
use vstd::string::StringExecFns;

use crate::proto::{RpcCode, RpcStatus};
use crate::table::{has_key, law_lookup_removed, law_lookup_stored, lookup, removed, stored, KeyedTable};

verus! {

/// `tonic::transport::Endpoint`, the address and settings of a channel.
#[verifier::external_type_specification]
#[verifier::external_body]
pub struct ExEndpoint(tonic::transport::Endpoint);

/// The endpoint that an address denotes, with default settings, or the message
/// that says why the address is not a valid URI.
pub uninterp spec fn endpoint_of(addr: Seq<char>) -> Result<Endpoint, Seq<char>>;

/// `tonic::transport::Channel::from_shared` parses an address into an endpoint
/// with default settings; here its error is given by its message. The outcome
/// depends on the address alone.
#[verifier::external_body]
fn parse_endpoint(addr: &str) -> (r: Result<Endpoint, String>)
    ensures
        match r {
            Ok(endpoint) => endpoint_of(addr@) is Ok && endpoint_of(addr@)->Ok_0 == endpoint,
            Err(message) => endpoint_of(addr@) is Err && endpoint_of(addr@)->Err_0 == message@,
        },
{
    match Channel::from_shared(addr.to_string()) {
        Ok(endpoint) => Ok(endpoint),
        Err(e) => Err(e.to_string()),
    }
}

/// Connection pool: one persistent channel per edge node.
pub struct NodeConnectionPool<C> {
    connections: KeyedTable<C>,
}

impl<C> View for NodeConnectionPool<C> {
    type V = Seq<(Seq<char>, C)>;

    closed spec fn view(&self) -> Seq<(Seq<char>, C)> {
        self.connections@
    }
}

/// The message for an address that is not valid.
pub open spec fn invalid_address(addr: Seq<char>, reason: Seq<char>) -> Seq<char> {
    "invalid address '"@ + addr + "': "@ + reason
}

impl<C> NodeConnectionPool<C> {
    /// No node has two channels.
    pub open spec fn wf(&self) -> bool {
        crate::table::distinct_keys(self@)
    }

    pub fn new() -> (pool: Self)
        ensures
            pool@ == Seq::<(Seq<char>, C)>::empty(),
            pool.wf(),
    {
        NodeConnectionPool { connections: KeyedTable::new() }
    }

    /// The number of nodes that have a channel.
    pub fn node_count(&self) -> (n: usize)
        ensures
            n == self@.len(),
    {
        self.connections.len()
    }

    /// Return a channel for `node_id`: the one that is already open, or else
    /// the one that `connect` makes for the endpoint at `addr`, which the pool
    /// then keeps.
    pub fn get_or_create<F: FnOnce(Endpoint) -> C>(&mut self, node_id: &str, addr: &str, connect: F) -> (r: Result<
        C,
        RpcStatus,
    >) where C: Clone
        requires
            old(self).wf(),
            forall|e: Endpoint| call_requires(connect, (e,)),
        ensures
            final(self).wf(),
            match lookup(old(self)@, node_id@) {
                Some(channel) => {
                    &&& r is Ok
                    &&& cloned(channel, r->Ok_0)
                    &&& final(self)@ == old(self)@
                },
                None => match endpoint_of(addr@) {
                    Ok(endpoint) => exists|channel: C|
                        {
                            &&& #[trigger] call_ensures(connect, (endpoint,), channel)
                            &&& r is Ok
                            &&& cloned(channel, r->Ok_0)
                            &&& final(self)@ == stored(old(self)@, node_id@, channel)
                        },
                    Err(reason) => {
                        &&& r is Err
                        &&& r->Err_0.code == RpcCode::Internal
                        &&& r->Err_0.message@ == invalid_address(addr@, reason)
                        &&& final(self)@ == old(self)@
                    },
                },
            },
    {
        if let Some(channel) = self.connections.get(node_id) {
            return Ok(channel.clone());
        }
        let parsed = parse_endpoint(addr);
        self.open_channel(node_id, addr, parsed, connect)
    }

    /// Open and keep the channel of a node that has none, once its address has
    /// been parsed.
    pub fn open_channel<F: FnOnce(Endpoint) -> C>(
        &mut self,
        node_id: &str,
        addr: &str,
        parsed: Result<Endpoint, String>,
        connect: F,
    ) -> (r: Result<C, RpcStatus>) where C: Clone
        requires
            old(self).wf(),
            !has_key(old(self)@, node_id@),
            forall|e: Endpoint| call_requires(connect, (e,)),
        ensures
            final(self).wf(),
            match parsed {
                Ok(endpoint) => exists|channel: C|
                    {
                        &&& #[trigger] call_ensures(connect, (endpoint,), channel)
                        &&& r is Ok
                        &&& cloned(channel, r->Ok_0)
                        &&& final(self)@ == stored(old(self)@, node_id@, channel)
                    },
                Err(reason) => {
                    &&& r is Err
                    &&& r->Err_0.code == RpcCode::Internal
                    &&& r->Err_0.message@ == invalid_address(addr@, reason@)
                    &&& final(self)@ == old(self)@
                },
            },
    {
        match parsed {
            Ok(endpoint) => {
                let channel = connect(endpoint);
                let shared = channel.clone();
                proof {
                    law_lookup_stored(self@, node_id@, channel, node_id@);
                }
                self.connections.insert(node_id.to_string(), channel);
                Ok(shared)
            },
            Err(reason) => Err(
                RpcStatus {
                    code: RpcCode::Internal,
                    message: "invalid address '".to_string().concat(addr).concat("': ").concat(reason.as_str()),
                },
            ),
        }
    }

    /// Remove the channel of a node that has been deregistered or found
    /// permanently unhealthy. The next call to
    /// [`get_or_create`](Self::get_or_create) opens a fresh connection.
    pub fn evict(&mut self, node_id: &str)
        requires
            old(self).wf(),
        ensures
            final(self).wf(),
            final(self)@ == removed(old(self)@, node_id@),
    {
        proof {
            law_lookup_removed(self@, node_id@, node_id@);
        }
        self.connections.remove(node_id);
    }
}

impl<C> Default for NodeConnectionPool<C> {
    fn default() -> (pool: Self)
        ensures
            pool@ == Seq::<(Seq<char>, C)>::empty(),
            pool.wf(),
    {
        Self::new()
    }
}

/// Once a channel is in the pool it is the one that is found for its node, and
/// no other node's channel changes; once it is evicted none is found for the
/// node until another is stored.
pub proof fn law_one_channel_per_node<C>(pool: Seq<(Seq<char>, C)>, node: Seq<char>, channel: C, other: Seq<char>)
    requires
        crate::table::distinct_keys(pool),
        other != node,
    ensures
        lookup(stored(pool, node, channel), node) == Some(channel),
        lookup(stored(pool, node, channel), other) == lookup(pool, other),
        lookup(removed(pool, node), node) is None,
        lookup(removed(pool, node), other) == lookup(pool, other),
{
    law_lookup_stored(pool, node, channel, node);
    law_lookup_stored(pool, node, channel, other);
    law_lookup_removed(pool, node, node);
    law_lookup_removed(pool, node, other);
}

/// The message for an address that is not valid quotes the address and ends with the
/// reason.
pub proof fn law_invalid_address_is_quoted(addr: Seq<char>, reason: Seq<char>)
    ensures
        invalid_address(addr, reason) == "invalid address '"@ + addr + "': "@ + reason,
{
}

} // verus!
