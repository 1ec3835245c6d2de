//! From what the service reports at login to the first state of the screen.

use vstd::prelude::*;
use crate::keyed::collected;
use crate::models::app_state::{AppState, Mode, StateError};
use crate::models::channel::{channel_of, Channel, ChannelID, ChannelList, ChannelView};
use crate::models::message_buffer::MessageBuffer;
use crate::models::user::{user_of, User, UserList, UserView};
use crate::records::{ChannelRecord, MessageRecord, UserRecord};

verus! {

/// What came back from a task that ran beside the screen.
#[derive(Debug)]
pub enum TaskResult {
    /// The history of a channel: its messages, if the answer holds any, or
    /// the error that came instead, given by its causes in words, the error
    /// itself first.
    ChannelHistory(ChannelID, Result<Option<Vec<MessageRecord>>, Vec<String>>),
}

/// The users that the records describe, in the order of the records;
/// records that describe none are left out.
pub open spec fn users_of(records: Seq<UserRecord>) -> Seq<UserView>
    decreases records.len(),
{
    if records.len() == 0 {
        Seq::empty()
    } else {
        match user_of(records.last()) {
            Some(user) => users_of(records.drop_last()).push(user),
            None => users_of(records.drop_last()),
        }
    }
}

/// The channels that the records describe, in the order of the records;
/// records that describe none are left out.
pub open spec fn channels_of(records: Seq<ChannelRecord>) -> Seq<ChannelView>
    decreases records.len(),
{
    if records.len() == 0 {
        Seq::empty()
    } else {
        match channel_of(records.last()) {
            Some(channel) => channels_of(records.drop_last()).push(channel),
            None => channels_of(records.drop_last()),
        }
    }
}

/// What each of `users` is.
pub open spec fn user_views(users: Seq<User>) -> Seq<UserView> {
    users.map_values(|user: User| user@)
}

/// What each of `channels` is.
pub open spec fn channel_views(channels: Seq<Channel>) -> Seq<ChannelView> {
    channels.map_values(|channel: Channel| channel@)
}

/// Index of the first channel of `channels` that the user is a member of,
/// or the length of `channels` where there is none.
pub open spec fn first_member(channels: Seq<Channel>) -> int
    decreases channels.len(),
{
    if channels.len() == 0 {
        0
    } else if channels[0]@.is_member {
        0
    } else {
        1 + first_member(channels.drop_first())
    }
}

/// The users that `records` describe.
pub fn users_from(records: &Vec<UserRecord>) -> (users: Vec<User>)
    ensures
        user_views(users@) == users_of(records@),
{
    let mut users: Vec<User> = Vec::new();
    let mut i: usize = 0;
    assert(user_views(users@) =~= users_of(records@.take(0)));
    while i < records.len()
        invariant
            i <= records.len(),
            user_views(users@) == users_of(records@.take(i as int)),
        decreases records.len() - i,
    {
        let ghost before = users@;
        assert(records@.take(i + 1).drop_last() == records@.take(i as int));
        match User::from_slack(&records[i]) {
            Some(user) => {
                users.push(user);
                assert(user_views(users@) =~= user_views(before).push(user@));
            },
            None => {},
        }
        i += 1;
    }
    assert(records@.take(records.len() as int) == records@);
    users
}

/// The channels that `records` describe.
pub fn channels_from(records: &Vec<ChannelRecord>) -> (channels: Vec<Channel>)
    ensures
        channel_views(channels@) == channels_of(records@),
{
    let mut channels: Vec<Channel> = Vec::new();
    let mut i: usize = 0;
    assert(channel_views(channels@) =~= channels_of(records@.take(0)));
    while i < records.len()
        invariant
            i <= records.len(),
            channel_views(channels@) == channels_of(records@.take(i as int)),
        decreases records.len() - i,
    {
        let ghost before = channels@;
        assert(records@.take(i + 1).drop_last() == records@.take(i as int));
        match Channel::from_slack(&records[i]) {
            Some(channel) => {
                channels.push(channel);
                assert(channel_views(channels@) =~= channel_views(before).push(channel@));
            },
            None => {},
        }
        i += 1;
    }
    assert(records@.take(records.len() as int) == records@);
    channels
}

/// Whether `state` is the first state of the screen for the users `users`
/// and the channels `channels` of the team `team_name`: in the history of
/// the first channel that the user is a member of, at its bottom, with no
/// messages yet.
pub open spec fn is_first_state(
    state: AppState,
    users: Seq<User>,
    channels: Seq<Channel>,
    team_name: Seq<char>,
) -> bool {
    &&& state.wf()
    &&& state.current_mode == Mode::History
    &&& state.chat_canvas is None
    &&& state.history_scroll == 0
    &&& state.last_chat_height == 0
    &&& state.channels@ == collected(channels)
    &&& first_member(state.channels@) < state.channels@.len()
    &&& state.selected_channel_id@ == state.channels@[first_member(state.channels@)]@.id
    &&& !state.is_loading_more_messages
    &&& state.messages@ == Seq::<crate::models::messages::Message>::empty()
    &&& state.team_name@ == team_name
    &&& state.users@ == collected(users)
}

/// The first state of the screen, made of what the service reports at
/// login: its users, its channels, and the name of the team.
///
/// It fails where the user is a member of no channel, and else where the
/// team has no name.
pub fn build_app_state(
    users: &Vec<UserRecord>,
    channels: &Vec<ChannelRecord>,
    team_name: Option<String>,
) -> (made: Result<AppState, StateError>)
    ensures
        match made {
            Ok(state) => team_name is Some && exists|known: Seq<User>, found: Seq<Channel>|
                user_views(known) == users_of(users@) && channel_views(found) == channels_of(
                    channels@,
                ) && #[trigger] is_first_state(state, known, found, team_name->0@),
            Err(error) => exists|found: Seq<Channel>|
                channel_views(found) == channels_of(channels@) && if #[trigger] first_member(
                    collected(found),
                ) >= collected(found).len() {
                    error == StateError::NoChannels
                } else {
                    error == StateError::NoTeamName && team_name is None
                },
        },
{
    let known = users_from(users);
    let found = channels_from(channels);
    let ghost known_all = known@;
    let ghost found_all = found@;
    let users: UserList = UserList::from_users(known);
    let channels: ChannelList = ChannelList::from_channels(found);

    // The first channel that the user is a member of.
    let all = channels.iter();
    let mut i: usize = 0;
    assert(channels@.skip(0) =~= channels@);
    while i < all.len() && !all[i].1.is_member()
        invariant
            i <= all.len(),
            all@.len() == channels@.len(),
            forall|k: int|
                0 <= k < all@.len() ==> *(#[trigger] all@[k]).1 == channels@[k] && (all@[k]).0@
                    == channels@[k]@.id,
            first_member(channels@) == i + first_member(channels@.skip(i as int)),
        decreases all.len() - i,
    {
        assert(channels@.skip(i as int)[0] == channels@[i as int]);
        assert(channels@.skip(i as int).drop_first() =~= channels@.skip(i + 1));
        i += 1;
    }
    if i >= all.len() {
        return Err(StateError::NoChannels);
    }
    assert(channels@.skip(i as int)[0] == channels@[i as int]);
    let selected_channel_id = all[i].0.clone();
    let team_name = match team_name {
        Some(name) => name,
        None => return Err(StateError::NoTeamName),
    };
    let state = AppState {
        current_mode: Mode::History,
        chat_canvas: None,
        history_scroll: 0,
        last_chat_height: 0,
        selected_channel_id,
        channels,
        is_loading_more_messages: false,
        messages: MessageBuffer::new(),
        team_name,
        users,
    };
    assert(is_first_state(state, known_all, found_all, team_name@));
    Ok(state)
}

} // verus!
