//! The messages that a password-manager front end exchanges with its host.

use vstd::prelude::*;

verus! {

pub type Id = u32;

/// What the user hands in.
#[derive(Clone, Debug, PartialEq, Eq)]
pub enum Input {
    Empty,
    Prompt(String),
    Auth(String, Auth),
    Open(String),
    Answer(String),
    Data(Vec<u8>),
}

/// How the user authenticates.
#[derive(Clone, Debug, PartialEq, Eq)]
pub enum Auth {
    Pwd { user: String, pwd: String },
    Credential {},
}

/// A message shown to the user.
#[derive(Clone, Debug, PartialEq, Eq)]
pub struct Message {
    pub id: Id,
    pub ts: u32,
    pub msg: String,
}

/// What the host hands back.
#[derive(Clone, Debug, PartialEq, Eq)]
pub enum Output {
    Empty,
    Busy,
    Msg(Message),
    MsgUpdate { id: Id, msg: String },
    WaitingAuth([u8; 32]),
    WaitingInput(String),
    WaitintData,
}

} // verus!
