//! Users, their identifiers and their colours.

use vstd::prelude::*;
use vstd::std_specs::convert::FromSpecImpl;
use vstd::string::StringExecFns;
use crate::keyed::{collected, inserted, lookup, Keyed, KeyedList};
use crate::records::UserRecord;
use crate::style::Color;

verus! {

/// The identifier of a user.
#[derive(Debug, PartialEq, Eq, Hash, PartialOrd, Ord)]
pub struct UserID(String);

impl View for UserID {
    type V = Seq<char>;

    closed spec fn view(&self) -> Seq<char> {
        self.0@
    }
}

impl Clone for UserID {
    fn clone(&self) -> (id: UserID)
        ensures
            id@ == self@,
    {
        UserID(self.0.clone())
    }
}

impl UserID {
    pub fn as_str(&self) -> (text: &str)
        ensures
            text@ == self@,
    {
        self.0.as_str()
    }
}

impl<'a> From<&'a str> for UserID {
    fn from(s: &'a str) -> (id: UserID)
        ensures
            id@ == s@,
    {
        UserID(String::from_str(s))
    }
}

/// What `from` makes is told by its text alone: which of the values with
/// that text it is, is left open.
impl<'a> FromSpecImpl<&'a str> for UserID {
    open spec fn obeys_from_spec() -> bool {
        false
    }

    open spec fn from_spec(s: &'a str) -> UserID {
        choose|id: UserID| id@ == s@
    }
}

impl<'a> From<&'a String> for UserID {
    fn from(s: &'a String) -> (id: UserID)
        ensures
            id@ == s@,
    {
        UserID(s.clone())
    }
}

impl<'a> FromSpecImpl<&'a String> for UserID {
    open spec fn obeys_from_spec() -> bool {
        false
    }

    open spec fn from_spec(s: &'a String) -> UserID {
        choose|id: UserID| id@ == s@
    }
}

impl From<String> for UserID {
    fn from(s: String) -> (id: UserID)
        ensures
            id@ == s@,
    {
        UserID(s)
    }
}

impl FromSpecImpl<String> for UserID {
    open spec fn obeys_from_spec() -> bool {
        false
    }

    open spec fn from_spec(s: String) -> UserID {
        choose|id: UserID| id@ == s@
    }
}

/// Whether `c` is a hexadecimal digit, in either case.
pub open spec fn is_hex_digit(c: char) -> bool {
    ('0' <= c <= '9') || ('a' <= c <= 'f') || ('A' <= c <= 'F')
}

/// The value of a hexadecimal digit.
pub open spec fn hex_value(c: char) -> int {
    if '0' <= c <= '9' {
        c as int - '0' as int
    } else if 'a' <= c <= 'f' {
        c as int - 'a' as int + 10
    } else {
        c as int - 'A' as int + 10
    }
}

/// The byte that two hexadecimal digits write.
pub open spec fn hex_byte(high: char, low: char) -> u8 {
    (hex_value(high) * 16 + hex_value(low)) as u8
}

/// The colour that `text` writes in hexadecimal, as red, green and blue:
/// there is one where `text` is six hexadecimal digits and nothing else.
pub open spec fn rgb_of(text: Seq<char>) -> Option<(u8, u8, u8)> {
    if text.len() == 6 && (forall|i: int| 0 <= i < 6 ==> is_hex_digit(#[trigger] text[i])) {
        Some((hex_byte(text[0], text[1]), hex_byte(text[2], text[3]), hex_byte(text[4], text[5])))
    } else {
        None
    }
}

/// Decodes three bytes with `from_hex` of the crate `hex`, for an array of
/// three bytes. It takes exactly six bytes, each a hexadecimal digit in
/// either case, and makes one byte of each pair, the first digit of a pair
/// counting 16. Anything else is an error there, and `None` here; so is a
/// text with a character outside ASCII, since none of its bytes is a digit.
#[verifier::external_body]
fn decode_rgb(hex_color: &str) -> (rgb: Option<(u8, u8, u8)>)
    ensures
        rgb == rgb_of(hex_color@),
{
    match <[u8; 3] as hex::FromHex>::from_hex(hex_color) {
        Ok(bytes) => Some((bytes[0], bytes[1], bytes[2])),
        Err(_) => None,
    }
}

/// What a user is, as mathematics.
pub struct UserView {
    pub id: Seq<char>,
    pub display_name: Seq<char>,
    pub color: Option<(u8, u8, u8)>,
}

impl UserView {
    /// The colour in which the user's name is shown: the user's own, or
    /// the terminal's.
    pub open spec fn shown_color(self) -> Color {
        match self.color {
            Some(rgb) => Color::Rgb(rgb.0, rgb.1, rgb.2),
            None => Color::Reset,
        }
    }
}

/// A user of the team.
#[derive(Debug)]
pub struct User {
    id: UserID,
    display_name: String,
    color: Option<(u8, u8, u8)>,
}

impl View for User {
    type V = UserView;

    closed spec fn view(&self) -> UserView {
        UserView { id: self.id@, display_name: self.display_name@, color: self.color }
    }
}

impl Clone for User {
    fn clone(&self) -> (user: User)
        ensures
            user@ == self@,
    {
        User { id: self.id.clone(), display_name: self.display_name.clone(), color: self.color }
    }
}

impl Keyed for User {
    open spec fn key(&self) -> Seq<char> {
        self@.id
    }

    fn key_text(&self) -> (text: &str) {
        self.id.as_str()
    }
}

/// The user that a record of the service describes: none without an
/// identifier. The colour is the one that the record writes in hexadecimal,
/// and a user without a name is called "No name".
pub open spec fn user_of(record: UserRecord) -> Option<UserView> {
    if record.id is Some {
        Some(
            UserView {
                id: record.id->0@,
                display_name: match record.name {
                    Some(name) => name@,
                    None => "No name"@,
                },
                color: rgb_of(
                    match record.color {
                        Some(color) => color@,
                        None => Seq::empty(),
                    },
                ),
            },
        )
    } else {
        None
    }
}

impl User {
    /// The user that `slack_user` describes, if it has an identifier.
    pub fn from_slack(slack_user: &UserRecord) -> (made: Option<User>)
        ensures
            match made {
                Some(user) => user_of(*slack_user) == Some(user@),
                None => user_of(*slack_user) is None,
            },
    {
        let id = match &slack_user.id {
            Some(id) => UserID::from(id),
            None => return None,
        };
        proof {
            reveal_strlit("");
            assert(""@ == Seq::<char>::empty());
        }
        let hex_color: &str = match &slack_user.color {
            Some(color) => color.as_str(),
            None => "",
        };
        let display_name = match &slack_user.name {
            Some(name) => name.clone(),
            None => String::from_str("No name"),
        };
        Some(User { id, color: decode_rgb(hex_color), display_name })
    }

    /// A user with only an identifier and a name, for trying things out.
    pub fn fixture(id: &str, display_name: &str) -> (user: User)
        ensures
            user@ == (UserView { id: id@, display_name: display_name@, color: None }),
    {
        User { id: UserID::from(id), color: None, display_name: String::from_str(display_name) }
    }

    pub fn id(&self) -> (id: &UserID)
        ensures
            id@ == self@.id,
    {
        &self.id
    }

    pub fn display_name(&self) -> (name: &str)
        ensures
            name@ == self@.display_name,
    {
        self.display_name.as_str()
    }

    /// The colour in which the user's name is shown.
    pub fn color(&self) -> (color: Color)
        ensures
            color == self@.shown_color(),
    {
        match self.color {
            Some(rgb) => Color::Rgb(rgb.0, rgb.1, rgb.2),
            None => Color::Reset,
        }
    }
}

/// The users of the team, in the order of their identifiers.
#[derive(Debug, Clone)]
pub struct UserList {
    users: KeyedList<User>,
}

impl View for UserList {
    type V = Seq<User>;

    closed spec fn view(&self) -> Seq<User> {
        self.users@
    }
}

impl UserList {
    /// The identifiers rise strictly from each user to the next.
    pub closed spec fn wf(&self) -> bool {
        self.users.wf()
    }

    /// A list of users is sorted by identifier.
    pub proof fn lemma_wf(&self)
        ensures
            self.wf() == crate::keyed::sorted(self@),
    {
    }

    pub fn new() -> (list: UserList)
        ensures
            list@ == Seq::<User>::empty(),
            list.wf(),
    {
        UserList { users: KeyedList::new() }
    }

    /// Puts `user` into the list, in place of the user that had its
    /// identifier if there was one.
    pub fn add_user(&mut self, user: User)
        requires
            old(self).wf(),
        ensures
            final(self)@ == inserted(old(self)@, user),
            final(self).wf(),
    {
        self.users.insert(user);
    }

    /// Number of users.
    pub fn len(&self) -> (len: usize)
        ensures
            len == self@.len(),
    {
        self.users.len()
    }

    /// The users with their identifiers, in the order of the identifiers.
    pub fn iter(&self) -> (pairs: Vec<(&UserID, &User)>)
        ensures
            pairs@.len() == self@.len(),
            forall|i: int|
                0 <= i < pairs@.len() ==> *(#[trigger] pairs@[i]).1 == self@[i] && (pairs@[i]).0@
                    == self@[i]@.id,
    {
        let mut pairs: Vec<(&UserID, &User)> = Vec::new();
        let mut i: usize = 0;
        while i < self.users.len()
            invariant
                i <= self@.len(),
                pairs@.len() == i,
                forall|k: int|
                    0 <= k < i ==> *(#[trigger] pairs@[k]).1 == self@[k] && (pairs@[k]).0@
                        == self@[k]@.id,
            decreases self@.len() - i,
        {
            let user = self.users.at(i);
            pairs.push((user.id(), user));
            i += 1;
        }
        pairs
    }

    /// The user with the identifier `id`, if the list has it.
    pub fn get(&self, id: &UserID) -> (user: Option<&User>)
        requires
            self.wf(),
        ensures
            match user {
                Some(found) => lookup(self@, id@) == Some(*found),
                None => lookup(self@, id@) is None,
            },
    {
        self.users.get(id.as_str())
    }

    /// The list of the users in `users`; of two with the same identifier
    /// the later one stays.
    pub fn from_users(users: Vec<User>) -> (list: UserList)
        ensures
            list.wf(),
            list@ == collected(users@),
    {
        UserList { users: KeyedList::from_items(users) }
    }
}

} // verus!
