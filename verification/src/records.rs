//! What the chat service reports, as plain values: every field may be
//! missing.

use vstd::prelude::*;

verus! {

/// The topic of a channel as the service reports it.
#[derive(Debug, Clone)]
pub struct TopicRecord {
    pub value: Option<String>,
}

/// A channel as the service reports it.
#[derive(Debug, Clone)]
pub struct ChannelRecord {
    pub id: Option<String>,
    pub name: Option<String>,
    pub topic: Option<TopicRecord>,
    pub unread_count: Option<i32>,
    pub is_member: Option<bool>,
}

/// A user as the service reports it.
#[derive(Debug, Clone)]
pub struct UserRecord {
    pub id: Option<String>,
    pub color: Option<String>,
    pub name: Option<String>,
}

/// An ordinary message as the service reports it.
#[derive(Debug, Clone)]
pub struct StandardRecord {
    pub ts: Option<String>,
    pub channel: Option<String>,
    pub user: Option<String>,
    pub text: Option<String>,
}

/// The message inside a report about a message.
#[derive(Debug, Clone)]
pub struct InnerRecord {
    pub user: Option<String>,
    pub text: Option<String>,
}

/// A report that a message was changed or answered.
#[derive(Debug, Clone)]
pub struct NestedRecord {
    pub ts: Option<String>,
    pub channel: Option<String>,
    pub message: Option<InnerRecord>,
    pub subtype: Option<String>,
}

/// A report that a message was deleted.
#[derive(Debug, Clone)]
pub struct DeletedRecord {
    pub ts: Option<String>,
    pub channel: Option<String>,
    pub subtype: Option<String>,
}

/// A report that an item was pinned or unpinned.
#[derive(Debug, Clone)]
pub struct PinRecord {
    pub ts: Option<String>,
    pub channel: Option<String>,
    pub user: Option<String>,
    pub text: Option<String>,
    pub subtype: Option<String>,
}

/// A report that an answer was sent to the whole channel.
#[derive(Debug, Clone)]
pub struct BroadcastRecord {
    pub ts: Option<String>,
    pub channel: Option<String>,
    pub user: Option<String>,
    pub subtype: Option<String>,
}

/// A message as the service reports it, by its kind. The kinds without
/// fields are the ones that are not shown.
#[derive(Debug, Clone)]
pub enum MessageRecord {
    Standard(StandardRecord),
    BotMessage,
    ChannelArchive,
    ChannelJoin,
    ChannelLeave,
    ChannelName,
    ChannelPurpose,
    ChannelTopic,
    ChannelUnarchive,
    FileComment,
    FileMention,
    FileShare,
    GroupArchive,
    GroupJoin,
    GroupLeave,
    GroupName,
    GroupPurpose,
    GroupTopic,
    GroupUnarchive,
    MeMessage,
    MessageChanged(NestedRecord),
    MessageDeleted(DeletedRecord),
    MessageReplied(NestedRecord),
    PinnedItem(PinRecord),
    ReplyBroadcast(BroadcastRecord),
    UnpinnedItem(PinRecord),
}

/// The text of an optional string, if there is one.
pub open spec fn text_of(value: Option<String>) -> Option<Seq<char>> {
    match value {
        Some(text) => Some(text@),
        None => None,
    }
}

} // verus!
