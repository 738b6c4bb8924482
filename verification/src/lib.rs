//! An in-memory key-value server core: the line-oriented wire-protocol codec,
//! the store with lazy per-key expiry, and the leader/replica replication
//! logic (handshake state machine, write propagation).
//!
//! Everything here is pure logic over plain values; sockets, clocks and
//! threads live with the caller, which hands in received lines and the
//! current time and carries out the returned effects.

pub mod dispatch;
pub mod framing;
pub mod handlers;
pub mod num;
pub mod replication;
pub mod request;
pub mod response;
pub mod state;
pub mod text;
pub mod utils;

pub use dispatch::classify_request;
pub use dispatch::dispatch;
pub use dispatch::request_arity_ok;
pub use dispatch::DispatchOutcome;
pub use dispatch::Disposition;
pub use dispatch::Effect;
pub use replication::HandshakeState;
pub use replication::RequestEnum;
pub use request::ProtocolError;
pub use request::Request;
pub use response::make_response;
pub use response::ResponseEnum;
pub use response::ResponseType;
pub use state::ReplicationInfo;
pub use state::SharedData;
pub use state::Value;
