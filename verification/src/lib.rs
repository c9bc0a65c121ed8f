//! Scrobbling logic for a music player: the play-time state machine,
//! the track model and the configuration-file parser.

pub mod config;
pub mod credentials;
pub mod error;
pub mod player_state;
pub mod scrobbler;
pub mod text;
pub mod track;

pub use config::{parse_config, Config};
pub use credentials::Credentials;
pub use error::{ParserError, ScrobbleManagerError};
pub use player_state::PlayerState;
pub use scrobbler::{Action, ScrobbleManager};
pub use track::Track;
