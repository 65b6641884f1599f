//! The server's configuration: the address it listens on and its route
//! table, gathered by a builder.
use vstd::prelude::*;
use crate::message::HttpMethod;
use crate::router::{RouteKey, Router};

verus! {

/// An IP address.
#[derive(Clone, Copy, Debug)]
pub enum IpAddress {
    V4([u8; 4]),
    V6([u16; 8]),
}

/// The address that the server listens on.
#[derive(Clone, Copy, Debug)]
pub struct SocketAddress {
    pub ip: IpAddress,
    pub port: u16,
}

/// Why a server could not be built.
#[derive(Clone, Copy, Debug, PartialEq, Eq, Structural)]
pub enum ConfigError {
    /// No address was bound.
    MissingAddress,
}

/// Collects the address and the routes of a server.
pub struct ServerBuilder<H> {
    address: Option<SocketAddress>,
    routes: Router<H>,
}

/// A configured server: its address, and the route table that every
/// connection reads and none changes.
pub struct Server<H> {
    address: SocketAddress,
    routes: Router<H>,
}

impl<H> ServerBuilder<H> {
    /// The address bound so far.
    pub closed spec fn bound_address(&self) -> Option<SocketAddress> {
        self.address
    }

    /// The routes registered so far.
    pub closed spec fn table(&self) -> Map<RouteKey, H> {
        self.routes@
    }

    #[verifier::type_invariant]
    spec fn inv(&self) -> bool {
        self.routes.wf()
    }

    /// A builder with no address and no routes.
    pub fn new() -> (r: ServerBuilder<H>)
        ensures
            r.bound_address() is None,
            r.table() == Map::<RouteKey, H>::empty(),
    {
        ServerBuilder { address: None, routes: Router::new() }
    }

    /// Sets the address to listen on.
    pub fn bind(self, socket: SocketAddress) -> (r: ServerBuilder<H>)
        ensures
            r.bound_address() == Some(socket),
            r.table() == self.table(),
    {
        proof {
            use_type_invariant(&self);
        }
        ServerBuilder { address: Some(socket), routes: self.routes }
    }

    /// Binds `handler` to `(method, path)`; the last registration of a pair wins.
    pub fn route(self, method: HttpMethod, path: &str, handler: H) -> (r: ServerBuilder<H>)
        ensures
            r.bound_address() == self.bound_address(),
            r.table() == self.table().insert((method@, path@), handler),
    {
        proof {
            use_type_invariant(&self);
        }
        let mut routes = self.routes;
        routes.register(method, path, handler);
        ServerBuilder { address: self.address, routes }
    }

    /// The server, once an address is bound; an empty table is allowed.
    pub fn build(self) -> (r: Result<Server<H>, ConfigError>)
        ensures
            match r {
                Ok(s) => self.bound_address() == Some(s.address_spec())
                    && s.table() == self.table(),
                Err(e) => self.bound_address() is None && e == ConfigError::MissingAddress,
            },
    {
        proof {
            use_type_invariant(&self);
        }
        match self.address {
            Some(address) => Ok(Server { address, routes: self.routes }),
            None => Err(ConfigError::MissingAddress),
        }
    }
}

impl<H> Server<H> {
    /// The address to listen on.
    pub closed spec fn address_spec(&self) -> SocketAddress {
        self.address
    }

    /// The bound routes.
    pub closed spec fn table(&self) -> Map<RouteKey, H> {
        self.routes@
    }

    #[verifier::type_invariant]
    spec fn inv(&self) -> bool {
        self.routes.wf()
    }

    /// The address to listen on.
    pub fn address(&self) -> (r: SocketAddress)
        ensures
            r == self.address_spec(),
    {
        self.address
    }

    /// The route table.
    pub fn routes(&self) -> (r: &Router<H>)
        ensures
            r.wf(),
            r@ == self.table(),
    {
        proof {
            use_type_invariant(self);
        }
        &self.routes
    }
}

} // verus!
