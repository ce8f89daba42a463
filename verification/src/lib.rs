//! A deterministic, single-threaded I/O driver for peer-to-peer software
//! whose business logic is a pure state machine.
//!
//! The driver (the *proposer*) owns the non-blocking TCP side: the listening
//! socket, outbound connects, readiness polling, the connection table and the
//! blacklist.  Each iteration it turns one quantum of external activity into a
//! sequence of *proposals* handed to the user's state machine; the state
//! machine replies with an immutable *request* describing what the driver
//! should do next.

mod addr;
mod addr_buf;
mod clock;
mod flags;
mod managed_stream;
mod marked_stream;
mod proposal;
mod proposer;
mod proposer_error;
mod request;
mod state;
mod stream_registry;
mod sys;
mod table;
mod text;
mod time;

pub use addr::Addr;
pub use addr::Ip;
pub use flags::Interests;
pub use flags::StreamFlags;
pub use managed_stream::fold_io;
pub use managed_stream::ManagedStream;
pub use managed_stream::TcpReadOnce;
pub use managed_stream::TcpWriteOnce;
pub use proposal::ConnectionId;
pub use proposal::EmitKind;
pub use proposal::IoResult;
pub use proposal::Proposal;
pub use proposal::ProposalKind;
pub use proposal::ReadOnce;
pub use proposal::WriteOnce;
pub use proposer::Proposer;
pub use proposer_error::ProposerError;
pub use request::ConnectionSource;
pub use request::Request;
pub use state::State;
pub use stream_registry::StreamRegistry;
pub use sys::EventInfo;
pub use sys::LISTENER_TOKEN;
pub use sys::SysIo;
pub use text::dec_u32;
pub use text::hex4_u16;
pub use time::TimeTracker;
