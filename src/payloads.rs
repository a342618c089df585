//! Request and response bodies of the player and map endpoints. The records
//! they carry (players, punishments, sessions, game modes, contributors)
//! belong to the document store, so they are type parameters here.
use vstd::prelude::*;
use std::collections::HashMap;
use crate::responder::{STATUS_CREATED, STATUS_OK};

verus! {

/// One map as a game server reports it.
pub struct MapLoadOneRequest<G, C> {
    pub id: String,
    pub name: String,
    pub slug: Option<String>,
    pub version: String,
    pub gamemodes: Vec<G>,
    pub authors: Vec<C>,
    pub contributors: Vec<C>,
}

/// A player about to join, with the address they join from.
pub struct PlayerPreLoginRequest<S> {
    pub player: S,
    pub ip: String,
}

/// Whether the player may join, and the punishments in force.
pub struct PlayerPreLoginResponse<P, Pun> {
    pub new: bool,
    pub allowed: bool,
    pub player: P,
    pub active_punishments: Vec<Pun>,
}

pub struct PlayerPreLoginResponder<P, Pun> {
    pub response: PlayerPreLoginResponse<P, Pun>,
}

impl<P, Pun> PlayerPreLoginResponder<P, Pun> {
    /// 201 for a player seen for the first time, 200 otherwise.
    pub fn status(&self) -> (r: u16)
        ensures
            r == if self.response.new {
                STATUS_CREATED
            } else {
                STATUS_OK
            },
    {
        if self.response.new {
            STATUS_CREATED
        } else {
            STATUS_OK
        }
    }
}

/// The session opened by a login.
pub struct PlayerLoginResponse<Sess> {
    pub active_session: Sess,
}

pub struct PlayerLoginResponder<Sess> {
    pub response: PlayerLoginResponse<Sess>,
}

impl<Sess> PlayerLoginResponder<Sess> {
    /// A login always creates a session: 201.
    pub fn status(&self) -> (r: u16)
        ensures
            r == STATUS_CREATED,
    {
        STATUS_CREATED
    }
}

/// A player leaving, with the session that ends and its play time.
pub struct PlayerLogoutRequest<S> {
    pub player: S,
    pub session_id: String,
    pub playtime: u64,
}

/// A player with the other accounts seen at the same address.
pub struct PlayerLookupResponse<P, Pun> {
    pub player: P,
    pub alts: Vec<PlayerAltResponse<P, Pun>>,
}

/// Another account of a player, with its punishments.
pub struct PlayerAltResponse<P, Pun> {
    pub player: P,
    pub punishments: Vec<Pun>,
}

/// A profile with the player's position on each leaderboard.
pub struct PlayerProfileResponse<P, K> {
    pub player: P,
    pub leaderboard_positions: HashMap<K, u64>,
}

/// A profile, with or without leaderboard positions.
pub enum PlayerProfileResponder<P, K> {
    RawProfile(P),
    ProfileWithLeaderboardPositions(PlayerProfileResponse<P, K>),
}

impl<P, K> PlayerProfileResponder<P, K> {
    /// Either form is sent with 200.
    pub fn status(&self) -> (r: u16)
        ensures
            r == STATUS_OK,
    {
        STATUS_OK
    }
}

/// A note written about a player.
pub struct PlayerAddNoteRequest<S> {
    pub author: S,
    pub content: String,
}

/// The tag a player shows, or none.
pub struct PlayerSetActiveTagRequest {
    pub active_tag_id: Option<String>,
}

} // verus!
