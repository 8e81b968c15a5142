//! The registry of connected clients and the allocator of their slots.
//!
//! The registry holds one record for each identity, and the slots that no
//! client holds.  A client is admitted to the greatest free slot.  Records are
//! changed by replacing them whole.

use crate::client::{Client, ClientView};
use crate::error::Error;
use vstd::prelude::*;

verus! {

/// The state of the registry: the records, in the order in which their
/// identities first came; the free slots, ascending; and the number of slots.
pub ghost struct Registry {
    pub clients: Seq<ClientView>,
    pub free: Seq<u8>,
    pub limit: u8,
}

impl Registry {
    /// A record of the identity `ipid` stands at `i`.
    pub open spec fn stands_at(self, ipid: u32, i: int) -> bool {
        0 <= i < self.clients.len() && self.clients[i].ipid == ipid
    }

    /// The registry holds a record of the identity `ipid`.
    pub open spec fn knows(self, ipid: u32) -> bool {
        exists|i: int| self.stands_at(ipid, i)
    }

    /// The first record of the identity `ipid` stands at `i`.
    pub open spec fn first_at(self, ipid: u32, i: int) -> bool {
        self.stands_at(ipid, i) && forall|j: int| 0 <= j < i ==> !self.stands_at(ipid, j)
    }

    /// Where the first record of the identity `ipid` stands.
    pub open spec fn position(self, ipid: u32) -> int {
        choose|i: int| self.first_at(ipid, i)
    }

    /// The record of the identity `ipid`, if the registry holds one.
    pub open spec fn find(self, ipid: u32) -> Option<ClientView> {
        if self.knows(ipid) {
            Some(self.clients[self.position(ipid)])
        } else {
            None
        }
    }

    /// Some record holds the slot.
    pub open spec fn in_use(self, slot: u8) -> bool {
        exists|i: int| 0 <= i < self.clients.len() && #[trigger] self.clients[i].id == slot
    }

    /// The slot is free.
    pub open spec fn is_free(self, slot: u8) -> bool {
        self.free.contains(slot)
    }

    /// The number of records that count as players.
    pub open spec fn player_count(self) -> nat {
        count_players(self.clients)
    }

    /// What holds of every registry, whatever was done with it: there is one
    /// record for each identity, and the free slots are slots, ascending.
    pub open spec fn wf(self) -> bool {
        &&& forall|i: int, j: int|
            0 <= i < j < self.clients.len() ==> self.clients[i].ipid != self.clients[j].ipid
        &&& forall|i: int, j: int| 0 <= i < j < self.free.len() ==> self.free[i] < self.free[j]
        &&& forall|i: int| 0 <= i < self.free.len() ==> #[trigger] self.free[i] < self.limit
    }

    /// Every slot is either free or held by exactly one record, and no
    /// record holds anything but a slot.
    pub open spec fn accounted(self) -> bool {
        &&& forall|i: int, j: int|
            0 <= i < j < self.clients.len() ==> self.clients[i].id != self.clients[j].id
        &&& forall|i: int|
            0 <= i < self.clients.len() ==> (#[trigger] self.clients[i]).id < self.limit
                && !self.is_free(self.clients[i].id)
        &&& forall|slot: u8|
            slot < self.limit ==> #[trigger] self.is_free(slot) || self.in_use(slot)
    }

    /// The registry with no client and every slot below `limit` free.
    pub open spec fn empty(limit: u8) -> Registry {
        Registry { clients: Seq::empty(), free: Seq::new(limit as nat, |i: int| i as u8), limit }
    }

    /// The record that admission makes for the identity `ipid`.
    pub open spec fn admitted_client(self, ipid: i64) -> ClientView {
        ClientView::fresh(self.free.last(), ipid as u32)
    }

    /// The registry without its greatest free slot.
    pub open spec fn popped(self) -> Registry {
        Registry { clients: self.clients, free: self.free.drop_last(), limit: self.limit }
    }

    /// The registry after a client of the identity `ipid` was admitted: the
    /// greatest free slot is taken, and the fresh record stands for the
    /// identity.  A record that the identity had before is released: it is
    /// gone, and its slot is free again.
    pub open spec fn admitted(self, ipid: i64) -> Registry {
        let cleared = if self.knows(ipid as u32) {
            self.popped().released(self.clients[self.position(ipid as u32)])
        } else {
            self.popped()
        };
        Registry {
            clients: cleared.clients.push(self.admitted_client(ipid)),
            free: cleared.free,
            limit: self.limit,
        }
    }

    /// The registry after the record of the client's identity was replaced
    /// by `client`, or added where there was none.
    pub open spec fn updated(self, client: ClientView) -> Registry {
        Registry {
            clients: if self.knows(client.ipid) {
                self.clients.update(self.position(client.ipid), client)
            } else {
                self.clients.push(client)
            },
            free: self.free,
            limit: self.limit,
        }
    }

    /// Whether the registry holds a record of the client's identity with the
    /// client's slot.
    pub open spec fn holds(self, client: ClientView) -> bool {
        self.find(client.ipid) matches Some(held) && held.id == client.id
    }

    /// The records after the client left: its record is gone where the
    /// registry holds it.
    pub open spec fn without(self, client: ClientView) -> Seq<ClientView> {
        if self.holds(client) {
            self.clients.remove(self.position(client.ipid))
        } else {
            self.clients
        }
    }

    /// Whether the client's leaving frees its slot: it does unless the slot
    /// is no slot, is free already, or is held by another record.
    pub open spec fn frees(self, client: ClientView) -> bool {
        let rest = Registry { clients: self.without(client), free: self.free, limit: self.limit };
        client.id < self.limit && !rest.is_free(client.id) && !rest.in_use(client.id)
    }

    /// The registry after the client left: its record is removed where the
    /// registry holds it, and its slot is free unless it is no slot or
    /// another record holds it.
    pub open spec fn released(self, client: ClientView) -> Registry {
        Registry {
            clients: self.without(client),
            free: if self.frees(client) {
                self.free.insert(insertion_point(self.free, client.id), client.id)
            } else {
                self.free
            },
            limit: self.limit,
        }
    }
}

/// The number of records that count as players.
pub open spec fn count_players(clients: Seq<ClientView>) -> nat
    decreases clients.len(),
{
    if clients.len() == 0 {
        0
    } else {
        count_players(clients.drop_last()) + if clients.last().is_player() {
            1nat
        } else {
            0nat
        }
    }
}

/// The number of slots in `free` that are less than `slot`: where `slot`
/// goes into the ascending list.
pub open spec fn insertion_point(free: Seq<u8>, slot: u8) -> int
    decreases free.len(),
{
    if free.len() == 0 {
        0
    } else {
        insertion_point(free.drop_last(), slot) + if free.last() < slot {
            1int
        } else {
            0int
        }
    }
}

/// The views of a list of records.
pub open spec fn client_views(clients: Seq<Client>) -> Seq<ClientView> {
    Seq::new(clients.len(), |i: int| clients[i]@)
}

/// The registry of connected clients.
///
/// The records stand in a list, one for each identity, in the order in which
/// they came.  Counting the players and telling whether a slot is held
/// walk all the records, and a list is walked in an order that a contract
/// can speak of.  The free slots stand in a list, ascending, so that the
/// greatest is the last.
pub struct ClientManager {
    clients: Vec<Client>,
    cur_id: Vec<u8>,
    limit: u8,
}

impl View for ClientManager {
    type V = Registry;

    closed spec fn view(&self) -> Registry {
        Registry { clients: client_views(self.clients@), free: self.cur_id@, limit: self.limit }
    }
}

impl ClientManager {
    /// A registry without clients, with the slots `0 .. playerlimit` free.
    pub fn new(playerlimit: u8) -> (r: Self)
        ensures
            r@ == Registry::empty(playerlimit),
            r@.wf(),
            r@.accounted(),
    {
        let mut cur_id: Vec<u8> = Vec::new();
        let mut slot: u8 = 0;
        while slot < playerlimit
            invariant
                slot <= playerlimit,
                cur_id.len() == slot,
                forall|i: int| 0 <= i < slot ==> cur_id@[i] == i,
            decreases playerlimit - slot,
        {
            cur_id.push(slot);
            slot = slot + 1;
        }
        let r = ClientManager { clients: Vec::new(), cur_id, limit: playerlimit };
        assert(r@.clients =~= Seq::<ClientView>::empty());
        assert(r@.free =~= Registry::empty(playerlimit).free);
        proof {
            lemma_empty(playerlimit);
        }
        r
    }

    /// Where the first record of the identity `ipid` stands, if there is
    /// one.
    fn position(&self, ipid: u32) -> (r: Option<usize>)
        ensures
            match r {
                Some(i) => self@.first_at(ipid, i as int) && self@.position(ipid) == i
                    && self@.knows(ipid),
                None => !self@.knows(ipid),
            },
    {
        let mut i: usize = 0;
        while i < self.clients.len()
            invariant
                i <= self.clients.len(),
                forall|j: int| 0 <= j < i ==> !self@.stands_at(ipid, j),
            decreases self.clients.len() - i,
        {
            if self.clients[i].ipid() == ipid {
                proof {
                    assert(self@.stands_at(ipid, i as int));
                    lemma_first(self@, ipid, i as int);
                }
                return Some(i);
            }
            i = i + 1;
        }
        None
    }

    /// Admits a client of the identity `ipid` to the greatest free slot.
    /// Its fresh record takes the place of the record that the identity had,
    /// if it had one, and the slot of that record is free again.
    ///
    /// Fails, and changes nothing, where no slot is free.  The identity is
    /// the low 32 bits of what persistence gave.
    pub fn new_client(&mut self, ipid: i64) -> (r: Result<Client, Error>)
        ensures
            old(self)@.wf() ==> final(self)@.wf(),
            old(self)@.wf() && old(self)@.accounted() ==> final(self)@.accounted(),
            match r {
                Ok(client) => {
                    &&& old(self)@.free.len() > 0
                    &&& client@ == old(self)@.admitted_client(ipid)
                    &&& final(self)@ == old(self)@.admitted(ipid)
                },
                Err(e) => {
                    &&& old(self)@.free.len() == 0
                    &&& e@ == crate::error::ErrorView::ServerFull
                    &&& final(self)@ == old(self)@
                },
            },
    {
        let user_id = match self.cur_id.pop() {
            Some(uid) => uid,
            None => {
                return Err(Error::ServerFull);
            },
        };
        let identity = #[verifier::truncate]
        (ipid as u32);
        let client = Client::new(user_id, identity);
        let ghost before = old(self)@;
        let ghost popped = self@;
        assert(popped.free =~= before.free.drop_last());
        assert(popped == before.popped());
        match self.position(identity) {
            Some(i) => {
                proof {
                    lemma_same_clients(before, popped, identity);
                    lemma_first(before, identity, i as int);
                    lemma_first(popped, identity, i as int);
                }
                let replaced = self.clients[i].clone();
                self.release_client(&replaced);
            },
            None => {
                proof {
                    lemma_same_clients(before, popped, identity);
                }
            },
        }
        let ghost cleared = self@;
        self.clients.push(client.clone());
        assert(self@.clients =~= cleared.clients.push(client@));
        proof {
            if before.wf() {
                lemma_admitted(before, ipid);
            }
        }
        Ok(client)
    }

    /// Replaces the record of the client's identity by `client`, or adds it
    /// where there is none.
    pub fn update_client(&mut self, client: Client)
        ensures
            old(self)@.wf() ==> final(self)@.wf(),
            old(self)@.wf() && old(self)@.accounted() && old(self)@.holds(client@)
                ==> final(self)@.accounted(),
            final(self)@ == old(self)@.updated(client@),
    {
        let ghost given = client@;
        let ghost before = self@;
        match self.position(client.ipid()) {
            Some(i) => {
                self.clients[i] = client;
                assert(self@.clients =~= before.clients.update(i as int, given));
            },
            None => {
                self.clients.push(client);
                assert(self@.clients =~= before.clients.push(given));
            },
        }
        assert(self@.free == before.free);
        proof {
            if before.wf() {
                lemma_updated_find(before, given, given.ipid);
                if before.accounted() && before.holds(given) {
                    lemma_updated_accounted(before, given);
                }
            }
        }
    }

    /// Whether some record holds the slot.
    fn slot_in_use(&self, slot: u8) -> (r: bool)
        ensures
            r == self@.in_use(slot),
    {
        let mut i: usize = 0;
        while i < self.clients.len()
            invariant
                i <= self.clients.len(),
                forall|j: int| 0 <= j < i ==> (#[trigger] self@.clients[j]).id != slot,
            decreases self.clients.len() - i,
        {
            if self.clients[i].id() == slot {
                assert(self@.clients[i as int].id == slot);
                return true;
            }
            i = i + 1;
        }
        false
    }

    /// Takes a client that left out of the registry: removes its record
    /// where the registry holds it, and frees its slot unless it is no slot,
    /// is free already, or is held by another record.
    pub fn release_client(&mut self, client: &Client)
        ensures
            old(self)@.wf() ==> final(self)@.wf(),
            old(self)@.wf() && old(self)@.accounted() ==> final(self)@.accounted(),
            final(self)@ == old(self)@.released(client@),
    {
        let slot = client.id();
        let ghost before = self@;
        match self.position(client.ipid()) {
            Some(i) => {
                if self.clients[i].id() == slot {
                    self.clients.remove(i);
                    assert(self@.clients =~= before.clients.remove(i as int));
                    assert(self@.free == before.free);
                }
            },
            None => {},
        }
        let ghost rest = self@;
        if slot < self.limit && !self.slot_in_use(slot) {
            let mut at: usize = 0;
            let mut present = false;
            let mut j: usize = 0;
            assert(rest.free.take(0) =~= Seq::<u8>::empty());
            while j < self.cur_id.len()
                invariant
                    j <= self.cur_id.len(),
                    at <= j,
                    self@ == rest,
                    at == insertion_point(rest.free.take(j as int), slot),
                    present == rest.free.take(j as int).contains(slot),
                decreases self.cur_id.len() - j,
            {
                proof {
                    let upto = rest.free.take(j + 1);
                    let short = rest.free.take(j as int);
                    assert(upto.drop_last() =~= short);
                    assert(upto.last() == rest.free[j as int]);
                    if short.contains(slot) {
                        let k = choose|k: int| 0 <= k < short.len() && short[k] == slot;
                        assert(upto[k] == slot);
                    }
                    if upto.contains(slot) && rest.free[j as int] != slot {
                        let k = choose|k: int| 0 <= k < upto.len() && upto[k] == slot;
                        assert(short[k] == slot);
                    }
                }
                if self.cur_id[j] < slot {
                    at = at + 1;
                }
                if self.cur_id[j] == slot {
                    present = true;
                    assert(rest.free.take(j + 1)[j as int] == slot);
                }
                j = j + 1;
            }
            assert(rest.free.take(j as int) =~= rest.free);
            if !present {
                self.cur_id.insert(at, slot);
                assert(self@.clients == rest.clients);
                assert(self@.free =~= rest.free.insert(at as int, slot));
            }
        }
        proof {
            if before.wf() {
                lemma_released(before, client@);
            }
        }
    }

    /// The record of the identity `ipid`, if the registry holds one.
    pub fn get(&self, ipid: u32) -> (r: Option<Client>)
        ensures
            match r {
                Some(client) => self@.find(ipid) == Some(client@),
                None => self@.find(ipid) is None,
            },
    {
        match self.position(ipid) {
            Some(i) => Some(self.clients[i].clone()),
            None => None,
        }
    }

    /// The number of records that count as players: all but spectators.
    pub fn player_count(&self) -> (r: usize)
        ensures
            r == self@.player_count(),
    {
        let mut count: usize = 0;
        let mut i: usize = 0;
        assert(self@.clients.take(0) =~= Seq::<ClientView>::empty());
        while i < self.clients.len()
            invariant
                i <= self.clients.len(),
                count <= i,
                count == count_players(self@.clients.take(i as int)),
            decreases self.clients.len() - i,
        {
            proof {
                let upto = self@.clients.take(i + 1);
                assert(upto.drop_last() =~= self@.clients.take(i as int));
                assert(upto.last() == self.clients@[i as int]@);
            }
            if self.clients[i].is_player() {
                count = count + 1;
            }
            i = i + 1;
        }
        assert(self@.clients.take(i as int) =~= self@.clients);
        count
    }

    /// The number of slots.
    pub fn player_limit(&self) -> (r: u8)
        ensures
            r == self@.limit,
    {
        self.limit
    }

    /// The number of free slots.
    pub fn free_slots(&self) -> (r: usize)
        ensures
            r == self@.free.len(),
    {
        self.cur_id.len()
    }

    /// Whether no slot is free, so that no client can be admitted.
    pub fn is_full(&self) -> (r: bool)
        ensures
            r == (self@.free.len() == 0),
    {
        self.cur_id.len() == 0
    }
}

/// The first record of an identity stands in one place only, which is
/// where `position` says.
pub proof fn lemma_first(r: Registry, ipid: u32, i: int)
    requires
        r.first_at(ipid, i),
    ensures
        r.knows(ipid),
        r.position(ipid) == i,
        r.find(ipid) == Some(r.clients[i]),
{
    let p = r.position(ipid);
    assert(r.first_at(ipid, p));
    if p < i {
        assert(!r.stands_at(ipid, p));
    } else if i < p {
        assert(!r.stands_at(ipid, i));
    }
}

/// What a registry says of an identity rests on its records alone.
pub proof fn lemma_same_clients(a: Registry, b: Registry, ipid: u32)
    requires
        a.clients == b.clients,
    ensures
        a.knows(ipid) == b.knows(ipid),
        forall|i: int| a.first_at(ipid, i) == b.first_at(ipid, i),
{
    assert forall|i: int| a.first_at(ipid, i) == b.first_at(ipid, i) by {
        assert(a.stands_at(ipid, i) == b.stands_at(ipid, i));
        if a.first_at(ipid, i) {
            assert forall|j: int| 0 <= j < i implies !b.stands_at(ipid, j) by {
                assert(!a.stands_at(ipid, j));
            }
        }
        if b.first_at(ipid, i) {
            assert forall|j: int| 0 <= j < i implies !a.stands_at(ipid, j) by {
                assert(!b.stands_at(ipid, j));
            }
        }
    }
    if a.knows(ipid) {
        let w = choose|w: int| a.stands_at(ipid, w);
        assert(b.stands_at(ipid, w));
    }
    if b.knows(ipid) {
        let w = choose|w: int| b.stands_at(ipid, w);
        assert(a.stands_at(ipid, w));
    }
}

/// In a well-formed registry a record stands where `position` says, and
/// nowhere else.
pub proof fn lemma_position(r: Registry, ipid: u32, i: int)
    requires
        r.wf(),
        r.stands_at(ipid, i),
    ensures
        r.knows(ipid),
        r.position(ipid) == i,
        r.find(ipid) == Some(r.clients[i]),
{
    assert forall|j: int| 0 <= j < i implies !r.stands_at(ipid, j) by {
        if r.stands_at(ipid, j) {
            assert(r.clients[j].ipid != r.clients[i].ipid);
        }
    }
    lemma_first(r, ipid, i);
}

/// In a well-formed registry, the record of a known identity stands where
/// `position` says.
pub proof fn lemma_known(r: Registry, ipid: u32)
    requires
        r.wf(),
        r.knows(ipid),
    ensures
        r.stands_at(ipid, r.position(ipid)),
{
    let w = choose|w: int| r.stands_at(ipid, w);
    lemma_position(r, ipid, w);
}

/// A new registry is well-formed, and every slot is accounted for: all are
/// free.
pub proof fn lemma_empty(limit: u8)
    ensures
        Registry::empty(limit).wf(),
        Registry::empty(limit).accounted(),
        Registry::empty(limit).clients.len() == 0,
        forall|slot: u8| slot < limit ==> Registry::empty(limit).is_free(slot),
{
    let r = Registry::empty(limit);
    assert forall|slot: u8| slot < limit implies r.is_free(slot) by {
        assert(r.free[slot as int] == slot);
    }
}

/// After a record was replaced or added, the query by its identity gives
/// that record, and the query by any other identity gives what it gave
/// before.
pub proof fn lemma_updated_find(r: Registry, client: ClientView, other: u32)
    requires
        r.wf(),
    ensures
        r.updated(client).wf(),
        r.updated(client).find(client.ipid) == Some(client),
        other != client.ipid ==> r.updated(client).find(other) == r.find(other),
{
    let after = r.updated(client);
    let at = if r.knows(client.ipid) {
        r.position(client.ipid)
    } else {
        r.clients.len() as int
    };
    if r.knows(client.ipid) {
        lemma_known(r, client.ipid);
    }
    assert(after.wf()) by {
        assert forall|a: int, b: int| 0 <= a < b < after.clients.len() implies after.clients[a].ipid
            != after.clients[b].ipid by {
            if r.knows(client.ipid) {
                assert(r.clients[a].ipid != r.clients[b].ipid);
            } else if b == r.clients.len() {
                assert(!r.stands_at(client.ipid, a));
            }
        }
    }
    assert(after.stands_at(client.ipid, at));
    lemma_position(after, client.ipid, at);
    if other != client.ipid {
        if r.knows(other) {
            lemma_known(r, other);
            let p = r.position(other);
            assert(after.stands_at(other, p));
            lemma_position(after, other, p);
        } else if after.knows(other) {
            let p = choose|p: int| after.stands_at(other, p);
            assert(r.stands_at(other, p));
        }
    }
}

/// Admission, then an update with a record of the admitted identity, then
/// the query by that identity: the query gives the record of the update.
pub proof fn lemma_admit_update_query(r: Registry, ipid: i64, client: ClientView)
    requires
        r.wf(),
        r.free.len() > 0,
        client.ipid == ipid as u32,
    ensures
        r.admitted(ipid).wf(),
        r.admitted(ipid).updated(client).find(client.ipid) == Some(client),
{
    lemma_admitted(r, ipid);
    lemma_updated_find(r.admitted(ipid), client, client.ipid);
}

/// What is free without the greatest free slot: what was free, but for
/// that slot.
pub proof fn lemma_popped(r: Registry)
    requires
        r.wf(),
        r.free.len() > 0,
    ensures
        r.popped().wf(),
        r.is_free(r.free.last()),
        forall|i: int| 0 <= i < r.free.len() ==> r.free[i] <= r.free.last(),
        forall|slot: u8|
            #[trigger] r.popped().is_free(slot) <==> r.is_free(slot) && slot != r.free.last(),
{
    let popped = r.popped();
    let last = r.free.len() - 1;
    assert(r.free[last] == r.free.last());
    assert forall|i: int| 0 <= i < r.free.len() implies r.free[i] <= r.free.last() by {
        if i < last {
            assert(r.free[i] < r.free[last]);
        }
    }
    assert(popped.wf()) by {
        assert forall|a: int, b: int| 0 <= a < b < popped.free.len() implies popped.free[a]
            < popped.free[b] by {
            assert(r.free[a] < r.free[b]);
        }
        assert forall|a: int| 0 <= a < popped.free.len() implies #[trigger] popped.free[a]
            < popped.limit by {
            assert(r.free[a] < r.limit);
        }
    }
    assert forall|slot: u8| #[trigger]
        popped.is_free(slot) <==> r.is_free(slot) && slot != r.free.last() by {
        if popped.is_free(slot) {
            let k = choose|k: int| 0 <= k < popped.free.len() && popped.free[k] == slot;
            assert(r.free[k] == slot);
            assert(r.free[k] < r.free[last]);
        }
        if r.is_free(slot) && slot != r.free.last() {
            let k = choose|k: int| 0 <= k < r.free.len() && r.free[k] == slot;
            assert(popped.free[k] == slot);
        }
    }
}

/// Giving a free slot to a fresh record keeps every slot accounted for:
/// where `after` has one record more than `before`, which holds a slot that
/// was free, and has that slot no longer free and nothing else changed.
pub proof fn lemma_slot_taken(before: Registry, after: Registry, fresh: ClientView)
    requires
        before.accounted(),
        before.is_free(fresh.id),
        fresh.id < before.limit,
        after.limit == before.limit,
        after.clients == before.clients.push(fresh),
        forall|slot: u8|
            #[trigger] after.is_free(slot) <==> before.is_free(slot) && slot != fresh.id,
    ensures
        after.accounted(),
{
    let n = before.clients.len() as int;
    assert forall|a: int, b: int| 0 <= a < b < after.clients.len() implies after.clients[a].id
        != after.clients[b].id by {
        if b == n {
            assert(!before.is_free(before.clients[a].id));
        } else {
            assert(before.clients[a].id != before.clients[b].id);
        }
    }
    assert forall|a: int| 0 <= a < after.clients.len() implies (#[trigger] after.clients[a]).id
        < after.limit && !after.is_free(after.clients[a].id) by {
        if a < n {
            assert(before.clients[a].id < before.limit && !before.is_free(before.clients[a].id));
        }
    }
    assert forall|slot: u8| slot < after.limit implies #[trigger] after.is_free(slot)
        || after.in_use(slot) by {
        if slot == fresh.id {
            assert(after.clients[n].id == slot);
        } else if !before.is_free(slot) {
            assert(before.in_use(slot));
            let i = choose|i: int|
                0 <= i < before.clients.len() && #[trigger] before.clients[i].id == slot;
            assert(after.clients[i].id == slot);
        }
    }
}

/// Admission keeps the registry well-formed and every slot accounted for.
/// It takes the greatest free slot, and the query by the identity gives the
/// fresh record afterwards.
pub proof fn lemma_admitted(r: Registry, ipid: i64)
    requires
        r.wf(),
        r.free.len() > 0,
    ensures
        r.admitted(ipid).wf(),
        forall|i: int| 0 <= i < r.free.len() ==> r.free[i] <= r.admitted_client(ipid).id,
        r.admitted(ipid).find(ipid as u32) == Some(r.admitted_client(ipid)),
        r.accounted() ==> r.admitted(ipid).accounted() && !r.admitted(ipid).is_free(
            r.admitted_client(ipid).id,
        ),
{
    let identity = ipid as u32;
    let after = r.admitted(ipid);
    let fresh = r.admitted_client(ipid);
    let popped = r.popped();
    lemma_popped(r);
    lemma_same_clients(r, popped, identity);
    let replaced = r.clients[r.position(identity)];
    let cleared = if r.knows(identity) {
        popped.released(replaced)
    } else {
        popped
    };
    // the registry as it would be had the replaced client left before
    let left = if r.knows(identity) {
        r.released(replaced)
    } else {
        r
    };
    if r.knows(identity) {
        lemma_known(r, identity);
        let p = r.position(identity);
        lemma_position(r, identity, p);
        lemma_position(popped, identity, p);
        assert(r.holds(replaced));
        assert(popped.holds(replaced));
        assert(popped.without(replaced) == r.without(replaced));
        lemma_released(popped, replaced);
        lemma_released(r, replaced);
        lemma_released_unknown(popped, replaced);
        assert forall|slot: u8| #[trigger]
            cleared.is_free(slot) <==> popped.is_free(slot) || (slot == replaced.id
                && popped.frees(replaced)) by {
            lemma_released_free(popped, replaced, slot);
        }
        assert forall|slot: u8| #[trigger]
            left.is_free(slot) <==> r.is_free(slot) || (slot == replaced.id && r.frees(
                replaced,
            )) by {
            lemma_released_free(r, replaced, slot);
        }
    }
    assert(!cleared.knows(identity));
    assert(cleared.wf());
    assert(after.clients == cleared.clients.push(fresh));
    let n = cleared.clients.len() as int;
    assert(after.wf()) by {
        assert forall|a: int, b: int| 0 <= a < b < after.clients.len() implies after.clients[a].ipid
            != after.clients[b].ipid by {
            if b == n {
                assert(!cleared.stands_at(identity, a));
            } else {
                assert(cleared.clients[a].ipid != cleared.clients[b].ipid);
            }
        }
    }
    assert(after.stands_at(identity, n));
    lemma_position(after, identity, n);
    if r.accounted() {
        if r.knows(identity) {
            // the replaced record held a slot, which is not the one that is taken
            assert(replaced.id < r.limit && !r.is_free(replaced.id));
            assert(replaced.id != fresh.id);
            assert(r.frees(replaced) == popped.frees(replaced)) by {
                assert(!popped.is_free(replaced.id));
            }
        }
        assert(!popped.is_free(fresh.id));
        assert(!cleared.is_free(fresh.id));
        assert(!after.is_free(fresh.id));
        assert(left.accounted());
        assert(left.is_free(fresh.id));
        assert(r.free[r.free.len() - 1] < r.limit);
        assert forall|slot: u8| #[trigger]
            after.is_free(slot) <==> left.is_free(slot) && slot != fresh.id by {
            assert(after.is_free(slot) == cleared.is_free(slot));
        }
        lemma_slot_taken(left, after, fresh);
    }
}

/// Replacing the record that the registry holds of a client by another of
/// the same slot keeps every slot accounted for.
pub proof fn lemma_updated_accounted(r: Registry, client: ClientView)
    requires
        r.wf(),
        r.accounted(),
        r.holds(client),
    ensures
        r.updated(client).accounted(),
        r.updated(client).clients.len() == r.clients.len(),
{
    let after = r.updated(client);
    let p = r.position(client.ipid);
    lemma_known(r, client.ipid);
    assert forall|a: int, b: int| 0 <= a < b < after.clients.len() implies after.clients[a].id
        != after.clients[b].id by {
        assert(r.clients[a].id != r.clients[b].id);
    }
    assert forall|a: int| 0 <= a < after.clients.len() implies (#[trigger] after.clients[a]).id
        < after.limit && !after.is_free(after.clients[a].id) by {
        assert(r.clients[a].id < r.limit && !r.is_free(r.clients[a].id));
    }
    assert forall|slot: u8| slot < after.limit implies #[trigger] after.is_free(slot)
        || after.in_use(slot) by {
        if !r.is_free(slot) {
            assert(r.in_use(slot));
            let i = choose|i: int| 0 <= i < r.clients.len() && #[trigger] r.clients[i].id == slot;
            assert(after.clients[i].id == slot);
        }
    }
}

/// What `insert` at the insertion point does to an ascending list: the slot
/// is in it, everything else is as before.
pub proof fn lemma_insert_free(free: Seq<u8>, slot: u8)
    requires
        forall|i: int, j: int| 0 <= i < j < free.len() ==> free[i] < free[j],
    ensures
        0 <= insertion_point(free, slot) <= free.len(),
        forall|i: int| 0 <= i < insertion_point(free, slot) ==> free[i] < slot,
        forall|i: int| insertion_point(free, slot) <= i < free.len() ==> free[i] >= slot,
    decreases free.len(),
{
    if free.len() > 0 {
        let front = free.drop_last();
        assert forall|i: int, j: int| 0 <= i < j < front.len() implies front[i] < front[j] by {
            assert(free[i] < free[j]);
        }
        lemma_insert_free(front, slot);
        let k = insertion_point(front, slot);
        let n = insertion_point(free, slot);
        if free.last() < slot {
            if k < front.len() {
                assert(front[k] >= slot);
                assert(free[k] < free.last());
            }
            assert(n == free.len());
            assert forall|i: int| 0 <= i < n implies free[i] < slot by {
                if i < front.len() {
                    assert(free[i] < free.last());
                }
            }
        } else {
            assert(n == k);
            assert forall|i: int| 0 <= i < n implies free[i] < slot by {
                assert(front[i] < slot);
            }
            assert forall|i: int| n <= i < free.len() implies free[i] >= slot by {
                if i < front.len() {
                    assert(front[i] >= slot);
                }
            }
        }
    }
}

/// The records that are left after a client left are records that were
/// there: the one at `a` stood at `a`, or one further on where the record
/// that is gone stood before it.
pub open spec fn stood_at(r: Registry, client: ClientView, a: int) -> int {
    if r.holds(client) && a >= r.position(client.ipid) {
        a + 1
    } else {
        a
    }
}

/// Where a record that is left after a client left stands: where it stood,
/// or one before that where the record that is gone stood before it.
pub open spec fn stands_at_after(r: Registry, client: ClientView, i: int) -> int {
    if r.holds(client) && i > r.position(client.ipid) {
        i - 1
    } else {
        i
    }
}

/// The records that are left after a client left.
pub proof fn lemma_without(r: Registry, client: ClientView)
    requires
        r.wf(),
    ensures
        r.holds(client) ==> r.stands_at(client.ipid, r.position(client.ipid)) && r.without(
            client,
        ).len() == r.clients.len() - 1,
        !r.holds(client) ==> r.without(client) == r.clients,
        forall|a: int|
            0 <= a < r.without(client).len() ==> 0 <= stood_at(r, client, a) < r.clients.len()
                && #[trigger] r.without(client)[a] == r.clients[stood_at(r, client, a)],
        forall|i: int|
            0 <= i < r.clients.len() && !(r.holds(client) && i == r.position(client.ipid))
                ==> 0 <= stands_at_after(r, client, i) < r.without(client).len() && r.without(
                client,
            )[stands_at_after(r, client, i)] == #[trigger] r.clients[i],
{
    if r.holds(client) {
        lemma_known(r, client.ipid);
    }
}

/// After the client that the registry held left, its identity has no
/// record.
pub proof fn lemma_released_unknown(r: Registry, client: ClientView)
    requires
        r.wf(),
        r.holds(client),
    ensures
        !r.released(client).knows(client.ipid),
        r.released(client).find(client.ipid) is None,
        r.released(client).clients.len() == r.clients.len() - 1,
{
    let after = r.released(client);
    let p = r.position(client.ipid);
    lemma_without(r, client);
    if after.knows(client.ipid) {
        let j = choose|j: int| after.stands_at(client.ipid, j);
        let j0 = stood_at(r, client, j);
        assert(after.clients[j] == r.clients[j0]);
        if j0 < p {
            assert(r.clients[j0].ipid != r.clients[p].ipid);
        } else {
            assert(r.clients[p].ipid != r.clients[j0].ipid);
        }
    }
}

/// What is free after a client left: what was free, and the client's slot
/// where its leaving frees it.
pub proof fn lemma_released_free(r: Registry, client: ClientView, slot: u8)
    requires
        r.wf(),
    ensures
        r.released(client).is_free(slot) <==> r.is_free(slot) || (slot == client.id && r.frees(
            client,
        )),
{
    let after = r.released(client);
    lemma_insert_free(r.free, client.id);
    let at = insertion_point(r.free, client.id);
    if r.frees(client) {
        if r.is_free(slot) {
            let k = choose|k: int| 0 <= k < r.free.len() && r.free[k] == slot;
            if k < at {
                assert(after.free[k] == slot);
            } else {
                assert(after.free[k + 1] == slot);
            }
        }
        if slot == client.id {
            assert(after.free[at] == slot);
        }
        if after.is_free(slot) {
            let k = choose|k: int| 0 <= k < after.free.len() && after.free[k] == slot;
            if k < at {
                assert(r.free[k] == slot);
            } else if k > at {
                assert(r.free[k - 1] == slot);
            }
        }
    }
}

/// After a client left, the registry is well-formed, and every slot is
/// accounted for if it was before.  Where the registry held the client, its
/// slot is free afterwards and its identity has no record.
pub proof fn lemma_released(r: Registry, client: ClientView)
    requires
        r.wf(),
    ensures
        r.released(client).wf(),
        r.accounted() ==> r.released(client).accounted(),
        r.accounted() && r.holds(client) ==> r.released(client).is_free(client.id) && r.released(
            client,
        ).find(client.ipid) is None && r.released(client).clients.len() == r.clients.len() - 1,
{
    let after = r.released(client);
    let p = r.position(client.ipid);
    let held = r.holds(client);
    lemma_without(r, client);
    let rest = Registry { clients: after.clients, free: r.free, limit: r.limit };
    assert forall|a: int, b: int| 0 <= a < b < rest.clients.len() implies rest.clients[a].ipid
        != rest.clients[b].ipid && (r.accounted() ==> rest.clients[a].id != rest.clients[b].id) by {
        let a0 = stood_at(r, client, a);
        let b0 = stood_at(r, client, b);
        assert(rest.clients[a] == r.clients[a0]);
        assert(rest.clients[b] == r.clients[b0]);
        assert(r.clients[a0].ipid != r.clients[b0].ipid);
        if r.accounted() {
            assert(r.clients[a0].id != r.clients[b0].id);
        }
    }
    lemma_insert_free(r.free, client.id);
    let at = insertion_point(r.free, client.id);
    let inserted = r.frees(client);
    assert(after.wf()) by {
        if inserted {
            assert forall|a: int, b: int| 0 <= a < b < after.free.len() implies after.free[a]
                < after.free[b] by {
                if b < at {
                    assert(r.free[a] < r.free[b]);
                } else if a > at {
                    assert(r.free[a - 1] < r.free[b - 1]);
                } else if a == at {
                    assert(r.free[b - 1] >= client.id);
                    assert(r.free.contains(r.free[b - 1]));
                } else if b == at {
                    assert(r.free[a] < client.id);
                } else {
                    assert(r.free[a] < r.free[b - 1]);
                }
            }
            assert forall|a: int| 0 <= a < after.free.len() implies #[trigger] after.free[a]
                < after.limit by {
                if a < at {
                    assert(r.free[a] < r.limit);
                } else if a > at {
                    assert(r.free[a - 1] < r.limit);
                }
            }
        }
    }
    assert forall|slot: u8| #[trigger]
        after.is_free(slot) <==> r.is_free(slot) || (inserted && slot == client.id) by {
        lemma_released_free(r, client, slot);
    }
    if r.accounted() {
        assert forall|a: int| 0 <= a < after.clients.len() implies (#[trigger] after.clients[a]).id
            < after.limit && !after.is_free(after.clients[a].id) by {
            let a0 = stood_at(r, client, a);
            assert(after.clients[a] == r.clients[a0]);
            assert(r.clients[a0].id < r.limit && !r.is_free(r.clients[a0].id));
            if inserted {
                assert(rest.clients[a].id == after.clients[a].id);
            }
        }
        if held {
            // no other record holds the slot of the one that is gone
            assert(r.clients[p].id < r.limit && !r.is_free(r.clients[p].id));
            assert(!rest.in_use(client.id)) by {
                if rest.in_use(client.id) {
                    let j = choose|j: int|
                        0 <= j < rest.clients.len() && #[trigger] rest.clients[j].id == client.id;
                    let j0 = stood_at(r, client, j);
                    assert(rest.clients[j] == r.clients[j0]);
                    if j0 < p {
                        assert(r.clients[j0].id != r.clients[p].id);
                    } else {
                        assert(r.clients[p].id != r.clients[j0].id);
                    }
                }
            }
            assert(inserted);
            lemma_released_unknown(r, client);
        }
        assert forall|slot: u8| slot < after.limit implies #[trigger] after.is_free(slot)
            || after.in_use(slot) by {
            if !r.is_free(slot) {
                assert(r.in_use(slot));
                let i = choose|i: int|
                    0 <= i < r.clients.len() && #[trigger] r.clients[i].id == slot;
                if held && i == p {
                    assert(slot == client.id);
                } else {
                    let a = stands_at_after(r, client, i);
                    assert(after.clients[a] == r.clients[i]);
                    assert(after.clients[a].id == slot);
                }
            }
        }
    }
}

/// Where every slot is accounted for, the clients and the free slots are
/// together as many as there are slots: there are never more clients than
/// slots.
pub proof fn lemma_population(r: Registry)
    requires
        r.wf(),
        r.accounted(),
    ensures
        r.clients.len() + r.free.len() == r.limit,
{
    let held = Seq::new(r.clients.len(), |i: int| r.clients[i].id as int);
    let free = Seq::new(r.free.len(), |i: int| r.free[i] as int);
    assert(held.no_duplicates()) by {
        assert forall|i: int, j: int|
            0 <= i < held.len() && 0 <= j < held.len() && i != j implies held[i] != held[j] by {
            if i < j {
                assert(r.clients[i].id != r.clients[j].id);
            } else {
                assert(r.clients[j].id != r.clients[i].id);
            }
        }
    }
    assert(free.no_duplicates()) by {
        assert forall|i: int, j: int|
            0 <= i < free.len() && 0 <= j < free.len() && i != j implies free[i] != free[j] by {
            if i < j {
                assert(r.free[i] < r.free[j]);
            } else {
                assert(r.free[j] < r.free[i]);
            }
        }
    }
    held.unique_seq_to_set();
    free.unique_seq_to_set();
    let slots = vstd::set_lib::set_int_range(0, r.limit as int);
    vstd::set_lib::lemma_int_range(0, r.limit as int);
    assert(held.to_set().disjoint(free.to_set())) by {
        assert forall|s: int| !(held.to_set().contains(s) && free.to_set().contains(s)) by {
            if held.to_set().contains(s) && free.to_set().contains(s) {
                let i = choose|i: int| 0 <= i < held.len() && held[i] == s;
                let k = choose|k: int| 0 <= k < free.len() && free[k] == s;
                assert(!r.is_free(r.clients[i].id));
                assert(r.free[k] == r.clients[i].id);
            }
        }
    }
    assert(held.to_set() + free.to_set() =~= slots) by {
        assert forall|s: int| (held.to_set() + free.to_set()).contains(s) <==> slots.contains(
            s,
        ) by {
            if held.to_set().contains(s) {
                let i = choose|i: int| 0 <= i < held.len() && held[i] == s;
                assert(r.clients[i].id < r.limit);
            }
            if free.to_set().contains(s) {
                let k = choose|k: int| 0 <= k < free.len() && free[k] == s;
                assert(r.free[k] < r.limit);
            }
            if slots.contains(s) {
                let slot = s as u8;
                assert(r.is_free(slot) || r.in_use(slot));
                if r.is_free(slot) {
                    let k = choose|k: int| 0 <= k < r.free.len() && r.free[k] == slot;
                    assert(free[k] == s);
                } else {
                    let i = choose|i: int|
                        0 <= i < r.clients.len() && #[trigger] r.clients[i].id == slot;
                    assert(held[i] == s);
                }
            }
        }
    }
    vstd::seq_lib::seq_to_set_is_finite(held);
    vstd::seq_lib::seq_to_set_is_finite(free);
    vstd::set_lib::lemma_set_disjoint_lens(held.to_set(), free.to_set());
}

} // verus!
