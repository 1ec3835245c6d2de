//! What is drawn into a frame: the scrollbar and the chat history.

pub mod channel_list;
pub mod chat_history;
pub mod line_edit;
pub mod scrollbar;

pub use self::channel_list::{ChannelList, Write};
pub use self::chat_history::ChatHistory;
pub use self::line_edit::LineEdit;
pub use self::scrollbar::Scrollbar;
