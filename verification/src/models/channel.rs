//! Channels and their identifiers.

use vstd::prelude::*;
use vstd::std_specs::convert::FromSpecImpl;
use vstd::string::StringExecFns;
use crate::keyed::{collected, inserted, lookup, Keyed, KeyedList};
use crate::records::{text_of, ChannelRecord};

verus! {

/// The identifier of a channel.
#[derive(Debug, PartialEq, Eq, Hash, PartialOrd, Ord)]
pub struct ChannelID(String);

impl View for ChannelID {
    type V = Seq<char>;

    closed spec fn view(&self) -> Seq<char> {
        self.0@
    }
}

impl Clone for ChannelID {
    fn clone(&self) -> (id: ChannelID)
        ensures
            id@ == self@,
    {
        ChannelID(self.0.clone())
    }
}

impl ChannelID {
    pub fn as_str(&self) -> (text: &str)
        ensures
            text@ == self@,
    {
        self.0.as_str()
    }

    /// Whether this is the identifier `other`.
    pub fn is(&self, other: &ChannelID) -> (same: bool)
        ensures
            same == (self@ == other@),
    {
        self.0 == other.0
    }
}

impl<'a> From<&'a str> for ChannelID {
    fn from(s: &'a str) -> (id: ChannelID)
        ensures
            id@ == s@,
    {
        ChannelID(String::from_str(s))
    }
}

/// What `from` makes is told by its text alone: which of the values with
/// that text it is, is left open.
impl<'a> FromSpecImpl<&'a str> for ChannelID {
    open spec fn obeys_from_spec() -> bool {
        false
    }

    open spec fn from_spec(s: &'a str) -> ChannelID {
        choose|id: ChannelID| id@ == s@
    }
}

impl<'a> From<&'a String> for ChannelID {
    fn from(s: &'a String) -> (id: ChannelID)
        ensures
            id@ == s@,
    {
        ChannelID(s.clone())
    }
}

impl<'a> FromSpecImpl<&'a String> for ChannelID {
    open spec fn obeys_from_spec() -> bool {
        false
    }

    open spec fn from_spec(s: &'a String) -> ChannelID {
        choose|id: ChannelID| id@ == s@
    }
}

impl From<String> for ChannelID {
    fn from(s: String) -> (id: ChannelID)
        ensures
            id@ == s@,
    {
        ChannelID(s)
    }
}

impl FromSpecImpl<String> for ChannelID {
    open spec fn obeys_from_spec() -> bool {
        false
    }

    open spec fn from_spec(s: String) -> ChannelID {
        choose|id: ChannelID| id@ == s@
    }
}

/// What a channel is, as mathematics.
pub struct ChannelView {
    pub id: Seq<char>,
    pub name: Seq<char>,
    pub is_member: bool,
    pub is_starred: bool,
    pub has_unreads: bool,
    pub topic_text: Option<Seq<char>>,
}

/// A channel of the team.
#[derive(Debug)]
pub struct Channel {
    id: ChannelID,
    name: String,
    is_member: bool,
    is_starred: bool,
    has_unreads: bool,
    topic_text: Option<String>,
}

impl View for Channel {
    type V = ChannelView;

    closed spec fn view(&self) -> ChannelView {
        ChannelView {
            id: self.id@,
            name: self.name@,
            is_member: self.is_member,
            is_starred: self.is_starred,
            has_unreads: self.has_unreads,
            topic_text: text_of(self.topic_text),
        }
    }
}

impl Clone for Channel {
    fn clone(&self) -> (channel: Channel)
        ensures
            channel@ == self@,
    {
        Channel {
            id: self.id.clone(),
            name: self.name.clone(),
            is_member: self.is_member,
            is_starred: self.is_starred,
            has_unreads: self.has_unreads,
            topic_text: match &self.topic_text {
                Some(text) => Some(text.clone()),
                None => None,
            },
        }
    }
}

impl Keyed for Channel {
    open spec fn key(&self) -> Seq<char> {
        self@.id
    }

    fn key_text(&self) -> (text: &str) {
        self.id.as_str()
    }
}

/// The channel that a record of the service describes: none without an
/// identifier or a name. It has unread messages where the count of them is
/// above zero, and is no member's channel unless the record says so.
pub open spec fn channel_of(record: ChannelRecord) -> Option<ChannelView> {
    if record.id is Some && record.name is Some {
        Some(
            ChannelView {
                id: record.id->0@,
                name: record.name->0@,
                is_member: record.is_member == Some(true),
                is_starred: false,
                has_unreads: record.unread_count is Some && record.unread_count->0 > 0,
                topic_text: match record.topic {
                    Some(topic) => text_of(topic.value),
                    None => None,
                },
            },
        )
    } else {
        None
    }
}

/// The names of the channels that count as starred whatever their flag says.
pub open spec fn starred_by_name(name: Seq<char>) -> bool {
    name == "team-core"@ || name == "development"@
}

/// Whether `text` is the text of `literal`.
fn text_is(text: &str, literal: &str) -> (same: bool)
    ensures
        same == (text@ == literal@),
{
    match crate::order::compare(text, literal) {
        crate::order::Precedence::Same => true,
        _ => false,
    }
}

impl Channel {
    /// The channel that `channel` describes, if it has an identifier and a
    /// name.
    pub fn from_slack(channel: &ChannelRecord) -> (made: Option<Channel>)
        ensures
            match made {
                Some(channel_made) => channel_of(*channel) == Some(channel_made@),
                None => channel_of(*channel) is None,
            },
    {
        let id = match &channel.id {
            Some(id) => ChannelID::from(id),
            None => return None,
        };
        let name = match &channel.name {
            Some(name) => name.clone(),
            None => return None,
        };
        let topic_text = match &channel.topic {
            Some(topic) => match &topic.value {
                Some(value) => Some(value.clone()),
                None => None,
            },
            None => None,
        };
        let has_unreads = match channel.unread_count {
            Some(count) => count > 0,
            None => false,
        };
        let is_member = match channel.is_member {
            Some(member) => member,
            None => false,
        };
        Some(Channel { id, name, topic_text, is_starred: false, has_unreads, is_member })
    }

    /// A channel with only an identifier and a name, for trying things out.
    pub fn fixture(id: &str, name: &str) -> (channel: Channel)
        ensures
            channel@ == (ChannelView {
                id: id@,
                name: name@,
                is_member: false,
                is_starred: false,
                has_unreads: false,
                topic_text: None,
            }),
    {
        Channel {
            id: ChannelID::from(id),
            name: String::from_str(name),
            is_member: false,
            is_starred: false,
            has_unreads: false,
            topic_text: None,
        }
    }

    pub fn id(&self) -> (id: &ChannelID)
        ensures
            id@ == self@.id,
    {
        &self.id
    }

    pub fn name(&self) -> (name: &str)
        ensures
            name@ == self@.name,
    {
        self.name.as_str()
    }

    pub fn topic_text(&self) -> (topic: Option<&str>)
        ensures
            match topic {
                Some(text) => self@.topic_text == Some(text@),
                None => self@.topic_text is None,
            },
    {
        match &self.topic_text {
            Some(text) => Some(text.as_str()),
            None => None,
        }
    }

    pub fn is_member(&self) -> (member: bool)
        ensures
            member == self@.is_member,
    {
        self.is_member
    }

    /// Whether the channel is starred: by its flag, or by its name.
    pub fn is_starred(&self) -> (starred: bool)
        ensures
            starred == (self@.is_starred || starred_by_name(self@.name)),
    {
        self.is_starred || text_is(self.name.as_str(), "team-core") || text_is(
            self.name.as_str(),
            "development",
        )
    }

    pub fn has_unreads(&self) -> (unreads: bool)
        ensures
            unreads == self@.has_unreads,
    {
        self.has_unreads
    }
}

/// The channels of the team, in the order of their identifiers.
#[derive(Debug, Clone)]
pub struct ChannelList {
    channels: KeyedList<Channel>,
}

impl View for ChannelList {
    type V = Seq<Channel>;

    closed spec fn view(&self) -> Seq<Channel> {
        self.channels@
    }
}

impl ChannelList {
    /// The identifiers rise strictly from each channel to the next.
    pub closed spec fn wf(&self) -> bool {
        self.channels.wf()
    }

    /// A list of channels is sorted by identifier.
    pub proof fn lemma_wf(&self)
        ensures
            self.wf() == crate::keyed::sorted(self@),
    {
    }

    pub fn new() -> (list: ChannelList)
        ensures
            list@ == Seq::<Channel>::empty(),
            list.wf(),
    {
        ChannelList { channels: KeyedList::new() }
    }

    /// Puts `channel` into the list, in place of the channel that had its
    /// identifier if there was one.
    pub fn add_channel(&mut self, channel: Channel)
        requires
            old(self).wf(),
        ensures
            final(self)@ == inserted(old(self)@, channel),
            final(self).wf(),
    {
        self.channels.insert(channel);
    }

    /// Number of channels.
    pub fn len(&self) -> (len: usize)
        ensures
            len == self@.len(),
    {
        self.channels.len()
    }

    /// The channels with their identifiers, in the order of the identifiers.
    pub fn iter(&self) -> (pairs: Vec<(&ChannelID, &Channel)>)
        ensures
            pairs@.len() == self@.len(),
            forall|i: int|
                0 <= i < pairs@.len() ==> *(#[trigger] pairs@[i]).1 == self@[i] && (pairs@[i]).0@
                    == self@[i]@.id,
    {
        let mut pairs: Vec<(&ChannelID, &Channel)> = Vec::new();
        let mut i: usize = 0;
        while i < self.channels.len()
            invariant
                i <= self@.len(),
                pairs@.len() == i,
                forall|k: int|
                    0 <= k < i ==> *(#[trigger] pairs@[k]).1 == self@[k] && (pairs@[k]).0@
                        == self@[k]@.id,
            decreases self@.len() - i,
        {
            let channel = self.channels.at(i);
            pairs.push((channel.id(), channel));
            i += 1;
        }
        pairs
    }

    /// The channel with the identifier `id`, if the list has it.
    pub fn get(&self, id: &ChannelID) -> (channel: Option<&Channel>)
        requires
            self.wf(),
        ensures
            match channel {
                Some(found) => lookup(self@, id@) == Some(*found),
                None => lookup(self@, id@) is None,
            },
    {
        self.channels.get(id.as_str())
    }

    /// The list of the channels in `channels`; of two with the same
    /// identifier the later one stays.
    pub fn from_channels(channels: Vec<Channel>) -> (list: ChannelList)
        ensures
            list.wf(),
            list@ == collected(channels@),
    {
        ChannelList { channels: KeyedList::from_items(channels) }
    }
}

} // verus!
