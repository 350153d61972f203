//! UDP rendezvous service: a verified wire format, a two-party connect
//! matcher, connection-id allocation, a sample ledger, a token-bucket rate
//! limiter, and the server's and the peer's decisions around them.
pub mod codec;
mod dash;
pub mod error;
pub mod message;
pub mod payloads;
pub mod peer;
pub mod rate_limiter;
pub mod server;
pub mod state;

pub use error::{Error, ErrorKind, NetworkError, NetworkErrorKind};
pub use message::{Message, Payload, PayloadKind};
pub use payloads::{
    Ack, PeerAddr, ProbeReply, ProbeRequest, SampleReply, SampleRequest, StartReply, StartRequest,
    StopRequest,
};
pub use peer::PeerState;
pub use rate_limiter::{RateLimiter, TokenBucket};
pub use server::{HandleError, RendezvousServer};
pub use state::{ConnectRequests, PairState, State};
