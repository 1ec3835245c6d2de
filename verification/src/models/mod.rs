//! What the client knows: channels, users, messages and the state of the
//! screen.

pub mod app_state;
pub mod channel;
pub mod message_buffer;
pub mod messages;
pub mod user;

pub use self::app_state::{AppState, Mode, StateError};
pub use self::channel::{Channel, ChannelID, ChannelList};
pub use self::message_buffer::MessageBuffer;
pub use self::messages::{
    ErrorMessage, HistoryEntry, LoadingMessage, Message, MessageID, MessageSideChannel,
    StandardMessage, UnsupportedMessage,
};
pub use self::user::{User, UserID, UserList};
