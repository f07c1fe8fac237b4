//! Tracks where a shared object ("Dusty") was last put, driven by plain chat
//! messages.  The location grammar, the persisted record format and the
//! command interpretation are all verified; the surrounding transport and the
//! actual file access live outside this crate and hand it plain strings.
pub mod codec;
pub mod errors;
pub mod interpret;
pub mod state;
pub mod text;

pub use codec::DustyLocation;
pub use errors::DustyError;
pub use interpret::handle_dusty_query;
pub use interpret::Intent;
pub use state::DustyState;
pub use state::StateStore;
