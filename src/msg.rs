use vstd::prelude::*;
use std::time::{SystemTime, UNIX_EPOCH};

verus! {

/// What a message carries: a join, a leave, or a line of chat text.
pub enum MsgData {
    Join,
    Leave,
    Msg(String),
}

/// One unit of chat traffic: the room it concerns, who sent it, when, and what.
pub struct Msg {
    pub room: String,
    pub username: String,
    pub timestamp: u64,
    pub data: MsgData,
}

/// The mathematical value of a payload.
pub enum DataView {
    Join,
    Leave,
    Msg(Seq<char>),
}

/// The mathematical value of a message.
pub struct MsgView {
    pub room: Seq<char>,
    pub username: Seq<char>,
    pub timestamp: u64,
    pub data: DataView,
}

impl View for MsgData {
    type V = DataView;

    open spec fn view(&self) -> DataView {
        match self {
            MsgData::Join => DataView::Join,
            MsgData::Leave => DataView::Leave,
            MsgData::Msg(s) => DataView::Msg(s@),
        }
    }
}

impl View for Msg {
    type V = MsgView;

    open spec fn view(&self) -> MsgView {
        MsgView {
            room: self.room@,
            username: self.username@,
            timestamp: self.timestamp,
            data: self.data@,
        }
    }
}

/// Relies on `SystemTime::now` and `SystemTime::duration_since(UNIX_EPOCH)`:
/// whole seconds since the Unix epoch, or `None` when the clock reads earlier
/// than the epoch. The value depends on the clock, so nothing more is stated.
#[verifier::external_body]
fn epoch_secs() -> (r: Option<u64>) {
    SystemTime::now().duration_since(UNIX_EPOCH).ok().map(|d| d.as_secs())
}

/// Seconds since the Unix epoch; a clock set before the epoch reads as 0.
pub fn get_epoch() -> (r: u64) {
    match epoch_secs() {
        Some(s) => s,
        None => 0,
    }
}

impl Msg {
    /// A message stamped with the current time.
    pub fn new(room: String, username: String, data: MsgData) -> (r: Msg)
        ensures
            r.room == room,
            r.username == username,
            r.data == data,
    {
        let timestamp = get_epoch();
        Msg { room, username, timestamp, data }
    }

    /// A `Join` of `username` to `room`, stamped now.
    pub fn join(room: &str, username: &str) -> (r: Msg)
        ensures
            r@.room == room@,
            r@.username == username@,
            r@.data == DataView::Join,
    {
        Msg::new(room.to_string(), username.to_string(), MsgData::Join)
    }

    /// A `Leave` of `username` from `room`, stamped now.
    pub fn leave(room: &str, username: &str) -> (r: Msg)
        ensures
            r@.room == room@,
            r@.username == username@,
            r@.data == DataView::Leave,
    {
        Msg::new(room.to_string(), username.to_string(), MsgData::Leave)
    }

    /// A chat line `msg` from `username` in `room`, stamped now.
    pub fn message(room: &str, username: &str, msg: &str) -> (r: Msg)
        ensures
            r@.room == room@,
            r@.username == username@,
            r@.data == DataView::Msg(msg@),
    {
        Msg::new(room.to_string(), username.to_string(), MsgData::Msg(msg.to_string()))
    }
}

} // verus!
