//! A minimal HTTP/1.1 server core: the message model, the wire parser and
//! serializer, the route table, and the per-connection decisions.
pub mod assoc;
pub mod connection;
pub mod head_reading;
pub mod message;
pub mod parser;
pub mod router;
pub mod server;
pub mod serializer;
