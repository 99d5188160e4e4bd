//! Challenges: proposed games that wait for an opponent.

use vstd::prelude::*;

verus! {

/// Identifier of a user account.
#[derive(Clone, Copy, Debug, PartialEq, Eq, Hash, Structural)]
pub struct UserId(pub u128);

/// Identifier of a challenge: opaque text, told apart by equality only.
#[derive(Debug, PartialEq, Eq, Hash)]
pub struct ChallengeId(pub String);

impl View for ChallengeId {
    type V = Seq<char>;

    open spec fn view(&self) -> Seq<char> {
        self.0@
    }
}

impl Clone for ChallengeId {
    fn clone(&self) -> (copy: Self)
        ensures
            copy == *self,
    {
        ChallengeId(self.0.clone())
    }
}

impl ChallengeId {
    /// Tells whether two identifiers name the same challenge.
    pub fn same_as(&self, other: &ChallengeId) -> (same: bool)
        ensures
            same == (self@ == other@),
    {
        self.0 == other.0
    }
}

/// The piece set a game is played with.
#[derive(Clone, Copy, Debug, PartialEq, Eq, Hash, Structural)]
pub enum GameType {
    Base,
    Mlp,
}

/// How the clock of a game runs.
#[derive(Clone, Copy, Debug, PartialEq, Eq, Hash, Structural)]
pub enum TimeMode {
    Untimed,
    Correspondence,
    RealTime,
}

/// The color the challenger asks for.
#[derive(Clone, Copy, Debug, PartialEq, Eq, Hash, Structural)]
pub enum ColorChoice {
    White,
    Black,
    Random,
}

/// Who may see and accept a challenge.
#[derive(Clone, Copy, Debug, PartialEq, Eq, Hash, Structural)]
pub enum ChallengeVisibility {
    Public,
    Private,
    Direct,
}

/// The user who issued a challenge.
#[derive(Debug, PartialEq, Eq)]
pub struct Challenger {
    pub uid: UserId,
    pub username: String,
}

impl Clone for Challenger {
    fn clone(&self) -> (copy: Self)
        ensures
            copy == *self,
    {
        Challenger { uid: self.uid, username: self.username.clone() }
    }
}

/// The user a direct challenge is addressed to.
#[derive(Clone, Copy, Debug, PartialEq, Eq, Hash, Structural)]
pub struct Opponent {
    pub uid: UserId,
}

/// A challenge as the server broadcasts it.
#[derive(Debug, PartialEq, Eq)]
pub struct ChallengeResponse {
    pub challenge_id: ChallengeId,
    pub challenger: Challenger,
    pub opponent: Option<Opponent>,
    pub game_type: GameType,
    pub rated: bool,
    pub time_mode: TimeMode,
    pub time_base: Option<i32>,
    pub time_increment: Option<i32>,
    pub color_choice: ColorChoice,
    pub visibility: ChallengeVisibility,
    pub band_lower: Option<i32>,
    pub band_upper: Option<i32>,
}

/// The mathematical content of a challenge: its texts as sequences of
/// characters, its opponent reduced to the user id.
pub struct ChallengeView {
    pub id: Seq<char>,
    pub challenger: UserId,
    pub username: Seq<char>,
    pub opponent: Option<UserId>,
    pub game_type: GameType,
    pub rated: bool,
    pub time_mode: TimeMode,
    pub time_base: Option<i32>,
    pub time_increment: Option<i32>,
    pub color_choice: ColorChoice,
    pub visibility: ChallengeVisibility,
    pub band_lower: Option<i32>,
    pub band_upper: Option<i32>,
}

impl View for ChallengeResponse {
    type V = ChallengeView;

    open spec fn view(&self) -> ChallengeView {
        ChallengeView {
            id: self.challenge_id@,
            challenger: self.challenger.uid,
            username: self.challenger.username@,
            opponent: match self.opponent {
                Some(o) => Some(o.uid),
                None => None,
            },
            game_type: self.game_type,
            rated: self.rated,
            time_mode: self.time_mode,
            time_base: self.time_base,
            time_increment: self.time_increment,
            color_choice: self.color_choice,
            visibility: self.visibility,
            band_lower: self.band_lower,
            band_upper: self.band_upper,
        }
    }
}

impl Clone for ChallengeResponse {
    fn clone(&self) -> (copy: Self)
        ensures
            copy == *self,
    {
        ChallengeResponse {
            challenge_id: self.challenge_id.clone(),
            challenger: self.challenger.clone(),
            opponent: self.opponent,
            game_type: self.game_type,
            rated: self.rated,
            time_mode: self.time_mode,
            time_base: self.time_base,
            time_increment: self.time_increment,
            color_choice: self.color_choice,
            visibility: self.visibility,
            band_lower: self.band_lower,
            band_upper: self.band_upper,
        }
    }
}

impl ChallengeResponse {
    /// The user id of the opponent, where the challenge names one.
    pub fn opponent_uid(&self) -> (uid: Option<UserId>)
        ensures
            uid == self@.opponent,
    {
        match self.opponent {
            Some(o) => Some(o.uid),
            None => None,
        }
    }
}

/// The contents of a list of challenges, one view for each, in order.
pub open spec fn challenge_views(challenges: Seq<ChallengeResponse>) -> Seq<ChallengeView> {
    challenges.map_values(|c: ChallengeResponse| c@)
}

} // verus!
