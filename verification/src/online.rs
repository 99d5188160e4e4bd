//! Presence of users, by username.

use vstd::hash_map::StringHashMap;
use vstd::prelude::*;

verus! {

/// What is known of a user's presence.
#[derive(Clone, Copy, Debug, PartialEq, Eq, Hash, Structural)]
pub enum UserStatus {
    Online,
    Offline,
    Away,
}

/// The presence of every user that the server has reported, by username.
pub struct OnlineUsersState {
    pub username_status: StringHashMap<UserStatus>,
}

impl View for OnlineUsersState {
    type V = Map<Seq<char>, UserStatus>;

    open spec fn view(&self) -> Map<Seq<char>, UserStatus> {
        self.username_status@
    }
}

/// Whether the presence map reports `username` as online. A username that
/// the map does not hold is not online.
pub open spec fn is_online(online: Map<Seq<char>, UserStatus>, username: Seq<char>) -> bool {
    online.contains_key(username) && online[username] == UserStatus::Online
}

impl OnlineUsersState {
    /// A presence map that knows of no user.
    pub fn new() -> (state: Self)
        ensures
            state@ == Map::<Seq<char>, UserStatus>::empty(),
    {
        OnlineUsersState { username_status: StringHashMap::new() }
    }

    /// Records the status of `username`, in place of an earlier one.
    pub fn set_status(&mut self, username: String, status: UserStatus)
        ensures
            final(self)@ == old(self)@.insert(username@, status),
    {
        self.username_status.insert(username, status);
    }

    /// Forgets what was recorded of `username`.
    pub fn forget(&mut self, username: &str)
        ensures
            final(self)@ == old(self)@.remove(username@),
    {
        self.username_status.remove(username);
    }

    /// The recorded status of `username`, if there is one.
    pub fn status_of(&self, username: &str) -> (status: Option<UserStatus>)
        ensures
            status == (if self@.contains_key(username@) {
                Some(self@[username@])
            } else {
                None
            }),
    {
        match self.username_status.get(username) {
            Some(s) => Some(*s),
            None => None,
        }
    }

    /// Tells whether `username` is recorded as online.
    pub fn online(&self, username: &str) -> (yes: bool)
        ensures
            yes == is_online(self@, username@),
    {
        match self.username_status.get(username) {
            Some(s) => *s == UserStatus::Online,
            None => false,
        }
    }
}

} // verus!
