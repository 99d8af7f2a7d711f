//! A small user-space TCP stack: sequence-number arithmetic, the per-connection
//! state machine, the connection manager behind the socket-like handles, and
//! the framing of IPv4/TCP headers.

pub mod seqnum;
pub mod wire;
pub mod tcp;
pub mod manager;
