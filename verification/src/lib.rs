//! Wire protocol and connection logic of a small vector database server
//! and its client.
//!
//! The library holds the byte formats that client and server exchange over
//! a stream, the decisions the server takes on each request, and the way the
//! client and its command line interpret each answer.  Sockets, standard
//! input and output, and the message-pack and JSON encodings of peer
//! descriptions and documents live outside the library.
pub mod cli;
pub mod client;
pub mod exchange;
pub mod foreign;
pub mod msgpack;
pub mod protocol;
pub mod server;
pub mod wire;
pub mod words;
