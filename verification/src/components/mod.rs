//! What the user acts on: the application, the channel selector and the
//! keys.

pub mod app;
pub mod channel_selector;
pub mod input_manager;
pub mod layout;

pub use self::app::App;
pub use self::channel_selector::{ChannelMatch, ChannelSelector};
pub use self::input_manager::{Key, KeyManager, Outcome};
