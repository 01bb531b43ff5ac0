//! The players' message log, kept beside the game.
use vstd::prelude::*;

use crate::Address;

verus! {

/// One message of the log.
#[derive(Clone, Debug, PartialEq, Eq)]
pub struct Message {
    pub author: Address,
    pub body: Vec<u8>,
}

impl Message {
    /// The author and the bytes of the message.
    pub open spec fn view(&self) -> (Address, Seq<u8>) {
        (self.author, self.body@)
    }

    /// A copy of the message.
    pub fn duplicate(&self) -> (r: Message)
        ensures
            r.view() == self.view(),
    {
        Message { author: self.author, body: self.body.clone() }
    }
}

/// The contents of a message log.
pub open spec fn log_view(chats: Seq<Message>) -> Seq<(Address, Seq<u8>)> {
    chats.map_values(|m: Message| m.view())
}

/// A copy of the whole log, oldest message first.
pub fn get_chats(chats: &Vec<Message>) -> (r: Vec<Message>)
    ensures
        log_view(r@) == log_view(chats@),
{
    let mut res: Vec<Message> = Vec::new();
    let mut i: usize = 0;
    while i < chats.len()
        invariant
            i <= chats@.len(),
            log_view(res@) == log_view(chats@.take(i as int)),
        decreases chats@.len() - i,
    {
        let ghost prev = res@;
        let m = chats[i].duplicate();
        res.push(m);
        assert(res@ == prev.push(m));
        assert(log_view(res@) =~= log_view(prev).push(chats@[i as int].view()));
        assert(chats@.take(i + 1) =~= chats@.take(i as int).push(chats@[i as int]));
        assert(log_view(chats@.take(i + 1)) =~= log_view(chats@.take(i as int)).push(
            chats@[i as int].view(),
        ));
        i = i + 1;
    }
    assert(chats@.take(chats@.len() as int) =~= chats@);
    res
}

/// Append a message by `player`, whose identity the host has authenticated,
/// and return it.
pub fn add_msg(chats: &mut Vec<Message>, player: Address, message: Vec<u8>) -> (r: Message)
    ensures
        r.view() == (player, message@),
        log_view(final(chats)@) == log_view(old(chats)@).push((player, message@)),
{
    let msg = Message { author: player, body: message };
    let copy = msg.duplicate();
    chats.push(msg);
    assert(log_view(chats@) =~= log_view(old(chats)@).push((player, message@)));
    copy
}

} // verus!
