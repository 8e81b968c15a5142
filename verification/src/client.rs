//! The record of one connected client.

use vstd::prelude::*;
use vstd::std_specs::cmp::PartialEqSpecImpl;

verus! {

/// The character id of a client that has not chosen a character.
pub const UNCHOSEN_CHARACTER: i32 = 0;

/// The character id that marks a spectator, who is no player.
pub const SPECTATOR_CHARACTER: i32 = 1;

/// What the server knows of one connected client.
///
/// Two records are equal where they are of the same identity: the registry
/// holds one record for each.
#[derive(Debug)]
pub struct Client {
    is_checked: bool,
    hdid: String,
    id: u8,
    char_id: i32,
    name: String,
    fake_name: String,
    is_mod: bool,
    ipid: u32,
}

/// A [`Client`] with its texts as sequences of characters.
pub ghost struct ClientView {
    pub is_checked: bool,
    pub hdid: Seq<char>,
    pub id: u8,
    pub char_id: i32,
    pub name: Seq<char>,
    pub fake_name: Seq<char>,
    pub is_mod: bool,
    pub ipid: u32,
}

impl ClientView {
    /// The record of a client that was just admitted to slot `id` under the
    /// identity `ipid`: everything else is empty, unset or zero.
    pub open spec fn fresh(id: u8, ipid: u32) -> ClientView {
        ClientView {
            is_checked: false,
            hdid: Seq::empty(),
            id,
            char_id: UNCHOSEN_CHARACTER,
            name: Seq::empty(),
            fake_name: Seq::empty(),
            is_mod: false,
            ipid,
        }
    }

    /// Whether the client counts as a player: everyone but spectators.
    pub open spec fn is_player(self) -> bool {
        self.char_id != SPECTATOR_CHARACTER
    }
}

impl View for Client {
    type V = ClientView;

    closed spec fn view(&self) -> ClientView {
        ClientView {
            is_checked: self.is_checked,
            hdid: self.hdid@,
            id: self.id,
            char_id: self.char_id,
            name: self.name@,
            fake_name: self.fake_name@,
            is_mod: self.is_mod,
            ipid: self.ipid,
        }
    }
}

impl Clone for Client {
    fn clone(&self) -> (r: Self)
        ensures
            r@ == self@,
    {
        Client {
            is_checked: self.is_checked,
            hdid: self.hdid.clone(),
            id: self.id,
            char_id: self.char_id,
            name: self.name.clone(),
            fake_name: self.fake_name.clone(),
            is_mod: self.is_mod,
            ipid: self.ipid,
        }
    }
}

impl Default for Client {
    fn default() -> (r: Self)
        ensures
            r@ == ClientView::fresh(0, 0),
    {
        Client::new(0, 0)
    }
}

impl PartialEq for Client {
    fn eq(&self, other: &Self) -> (r: bool) {
        self.ipid == other.ipid
    }
}

impl PartialEqSpecImpl for Client {
    open spec fn obeys_eq_spec() -> bool {
        true
    }

    open spec fn eq_spec(&self, other: &Self) -> bool {
        self@.ipid == other@.ipid
    }
}

impl Eq for Client {

}

impl Client {
    /// The record of a client that was just admitted to slot `user_id` under
    /// the identity `ipid`.
    pub fn new(user_id: u8, ipid: u32) -> (r: Self)
        ensures
            r@ == ClientView::fresh(user_id, ipid),
    {
        Client {
            is_checked: false,
            hdid: String::new(),
            id: user_id,
            char_id: UNCHOSEN_CHARACTER,
            name: String::new(),
            fake_name: String::new(),
            is_mod: false,
            ipid,
        }
    }

    /// The slot that the client holds.
    pub fn id(&self) -> (r: u8)
        ensures
            r == self@.id,
    {
        self.id
    }

    /// The identity that persistence gave to the client's address.
    pub fn ipid(&self) -> (r: u32)
        ensures
            r == self@.ipid,
    {
        self.ipid
    }

    /// The hardware id that the client named, empty before it did.
    pub fn hdid(&self) -> (r: &String)
        ensures
            r@ == self@.hdid,
    {
        &self.hdid
    }

    /// The character that the client plays.
    pub fn char_id(&self) -> (r: i32)
        ensures
            r == self@.char_id,
    {
        self.char_id
    }

    /// Whether the client counts as a player: everyone but spectators.
    pub fn is_player(&self) -> (r: bool)
        ensures
            r == self@.is_player(),
    {
        self.char_id != SPECTATOR_CHARACTER
    }

    /// Records the hardware id that the client named.
    pub fn set_hdid(&mut self, hdid: String)
        ensures
            final(self)@ == (ClientView { hdid: hdid@, ..old(self)@ }),
    {
        self.hdid = hdid;
    }

    /// Records the character that the client chose.
    pub fn set_char_id(&mut self, char_id: i32)
        ensures
            final(self)@ == (ClientView { char_id, ..old(self)@ }),
    {
        self.char_id = char_id;
    }
}

} // verus!
