//! The connection to the speech recogniser.

pub mod deepgram;
pub mod protocol;

pub use deepgram::{build_deepgram_url, SttError};
pub use protocol::{parse_server_message, ProtocolError};
