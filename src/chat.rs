use vstd::prelude::*;
use std::sync::Arc;
use tokio::sync::broadcast;

use crate::index::{
    index_drop, index_get, index_insert, index_is_empty, index_new, index_of,
    index_remove, NameIndex,
};
use crate::msg::{DataView, Msg, MsgData, MsgView};

verus! {

#[verifier::external_type_specification]
#[verifier::external_body]
#[verifier::reject_recursive_types(T)]
pub struct ExSender<T>(broadcast::Sender<T>);

#[verifier::external_type_specification]
#[verifier::external_body]
#[verifier::reject_recursive_types(T)]
pub struct ExReceiver<T>(broadcast::Receiver<T>);

/// Slots of the broadcast channel; a receiver that falls further behind
/// loses the oldest messages.
pub const CAPACITY: usize = 64;

/// Relies on `tokio::sync::broadcast::channel`, which panics on a capacity of
/// zero or above `usize::MAX / 2`. The first receiver is dropped at once.
#[verifier::external_body]
fn bus_channel(capacity: usize) -> (r: broadcast::Sender<Arc<Msg>>)
    requires
        0 < capacity <= usize::MAX / 2,
{
    broadcast::channel(capacity).0
}

/// Relies on `broadcast::Sender::subscribe`: a receiver that sees what is
/// sent from now on.
#[verifier::external_body]
fn bus_subscribe(tx: &broadcast::Sender<Arc<Msg>>) -> (r: broadcast::Receiver<Arc<Msg>>) {
    tx.subscribe()
}

/// Relies on `broadcast::Sender::send`, which never blocks: on success the
/// number of receivers subscribed at that moment, at least one; `None` when
/// there is no receiver.
#[verifier::external_body]
fn bus_send(tx: &broadcast::Sender<Arc<Msg>>, m: Arc<Msg>) -> (r: Option<usize>)
    ensures
        r matches Some(n) ==> n >= 1,
{
    tx.send(m).ok()
}

/// A (user, room) membership pair.
pub type Pair = (Seq<char>, Seq<char>);

/// `m` has an entry under `k` whose set holds `v`.
pub open spec fn holds(m: Map<Seq<char>, Set<Seq<char>>>, k: Seq<char>, v: Seq<char>) -> bool {
    m.contains_key(k) && m[k].contains(v)
}

/// The two indexes describe the same relation, one from each side.
pub open spec fn mirrored(ur: Map<Seq<char>, Set<Seq<char>>>, ru: Map<Seq<char>, Set<Seq<char>>>) -> bool {
    forall|u: Seq<char>, r: Seq<char>|
        #![trigger holds(ur, u, r)]
        #![trigger holds(ru, r, u)]
        holds(ur, u, r) <==> holds(ru, r, u)
}

/// Every entry holds a finite, non-empty set: an absent key is the only
/// form of "no membership".
pub open spec fn no_empty_entries(m: Map<Seq<char>, Set<Seq<char>>>) -> bool {
    forall|k: Seq<char>| #[trigger] m.contains_key(k) ==> m[k].finite() && m[k] != Set::<Seq<char>>::empty()
}

/// The rooms of every user and the users of every room, and the broadcast
/// channel on which every accepted message is published.
pub struct ChatState {
    user_rooms: NameIndex,
    room_users: NameIndex,
    tx: broadcast::Sender<Arc<Msg>>,
    published: Ghost<Seq<MsgView>>,
}

impl ChatState {
    /// Rooms by user.
    pub closed spec fn user_rooms_view(&self) -> Map<Seq<char>, Set<Seq<char>>> {
        index_of(self.user_rooms)
    }

    /// Users by room.
    pub closed spec fn room_users_view(&self) -> Map<Seq<char>, Set<Seq<char>>> {
        index_of(self.room_users)
    }

    /// Every message handed to the channel so far, in order.
    pub closed spec fn published(&self) -> Seq<MsgView> {
        self.published@
    }

    pub open spec fn wf(&self) -> bool {
        &&& mirrored(self.user_rooms_view(), self.room_users_view())
        &&& no_empty_entries(self.user_rooms_view())
        &&& no_empty_entries(self.room_users_view())
    }

    /// The membership relation, as (user, room) pairs.
    pub open spec fn members(&self) -> Set<Pair> {
        Set::new(|p: Pair| holds(self.user_rooms_view(), p.0, p.1))
    }

    pub open spec fn rooms_of(&self, user: Seq<char>) -> Set<Seq<char>> {
        if self.user_rooms_view().contains_key(user) {
            self.user_rooms_view()[user]
        } else {
            Set::empty()
        }
    }

    pub open spec fn users_of(&self, room: Seq<char>) -> Set<Seq<char>> {
        if self.room_users_view().contains_key(room) {
            self.room_users_view()[room]
        } else {
            Set::empty()
        }
    }

    /// An empty registry and a fresh channel.
    pub fn new() -> (r: ChatState)
        ensures
            r.wf(),
            r.members() == Set::<Pair>::empty(),
            r.user_rooms_view().dom() == Set::<Seq<char>>::empty(),
            r.room_users_view().dom() == Set::<Seq<char>>::empty(),
            r.published() == Seq::<MsgView>::empty(),
    {
        let r = ChatState {
            user_rooms: index_new(),
            room_users: index_new(),
            tx: bus_channel(CAPACITY),
            published: Ghost(Seq::empty()),
        };
        assert(r.members() =~= Set::<Pair>::empty());
        assert(r.user_rooms_view().dom() =~= Set::<Seq<char>>::empty());
        assert(r.room_users_view().dom() =~= Set::<Seq<char>>::empty());
        r
    }

    /// A receiver of every message published from now on.
    pub fn subscribe(&self) -> broadcast::Receiver<Arc<Msg>> {
        bus_subscribe(&self.tx)
    }

    /// The rooms that `username` is in, each once.
    pub fn get_user_rooms(&self, username: &str) -> (r: Vec<String>)
        ensures
            r@.map_values(|s: String| s@).no_duplicates(),
            r@.map_values(|s: String| s@).to_set() == self.rooms_of(username@),
    {
        match index_get(&self.user_rooms, username) {
            Some(v) => v,
            None => {
                let v: Vec<String> = Vec::new();
                assert(v@.map_values(|s: String| s@).to_set() =~= Set::<Seq<char>>::empty());
                v
            },
        }
    }

    /// The users in `room`, each once.
    pub fn get_room_users(&self, room: &str) -> (r: Vec<String>)
        ensures
            r@.map_values(|s: String| s@).no_duplicates(),
            r@.map_values(|s: String| s@).to_set() == self.users_of(room@),
    {
        match index_get(&self.room_users, room) {
            Some(v) => v,
            None => {
                let v: Vec<String> = Vec::new();
                assert(v@.map_values(|s: String| s@).to_set() =~= Set::<Seq<char>>::empty());
                v
            },
        }
    }

    /// Adds `user` to `room`; joining twice changes nothing more.
    pub fn join(&mut self, user: &String, room: &String)
        requires
            old(self).wf(),
        ensures
            final(self).wf(),
            final(self).members() == old(self).members().insert((user@, room@)),
            final(self).published() == old(self).published(),
    {
        let ghost ur0 = self.user_rooms_view();
        let ghost ru0 = self.room_users_view();
        index_insert(&mut self.user_rooms, user, room);
        index_insert(&mut self.room_users, room, user);
        let ghost ur1 = self.user_rooms_view();
        let ghost ru1 = self.room_users_view();
        assert forall|u: Seq<char>, r: Seq<char>| holds(ur1, u, r) == (holds(ur0, u, r) || (u == user@ && r == room@)) by {}
        assert forall|u: Seq<char>, r: Seq<char>| holds(ru1, r, u) == (holds(ru0, r, u) || (u == user@ && r == room@)) by {}
        assert forall|k: Seq<char>| #[trigger] ur1.contains_key(k) implies ur1[k].finite() && ur1[k] != Set::<Seq<char>>::empty() by {
            if k == user@ {
                assert(ur1[k].contains(room@));
            }
        }
        assert forall|k: Seq<char>| #[trigger] ru1.contains_key(k) implies ru1[k].finite() && ru1[k] != Set::<Seq<char>>::empty() by {
            if k == room@ {
                assert(ru1[k].contains(user@));
            }
        }
        assert(self.members() =~= old(self).members().insert((user@, room@)));
    }

    /// Takes `user` out of `room`, and drops an entry whose set becomes empty.
    /// Leaving a room never joined changes nothing.
    pub fn leave(&mut self, user: &String, room: &String)
        requires
            old(self).wf(),
        ensures
            final(self).wf(),
            final(self).members() == old(self).members().remove((user@, room@)),
            final(self).published() == old(self).published(),
            !old(self).members().contains((user@, room@)) ==> {
                &&& final(self).user_rooms_view() == old(self).user_rooms_view()
                &&& final(self).room_users_view() == old(self).room_users_view()
            },
    {
        let ghost ur0 = self.user_rooms_view();
        let ghost ru0 = self.room_users_view();
        proof {
            if !holds(ur0, user@, room@) {
                if ur0.contains_key(user@) {
                    assert(ur0[user@].remove(room@) =~= ur0[user@]);
                    assert(ur0.insert(user@, ur0[user@]) =~= ur0);
                }
                assert(!holds(ru0, room@, user@));
                if ru0.contains_key(room@) {
                    assert(ru0[room@].remove(user@) =~= ru0[room@]);
                    assert(ru0.insert(room@, ru0[room@]) =~= ru0);
                }
            }
        }
        index_remove(&mut self.user_rooms, user, room);
        match index_is_empty(&self.user_rooms, user) {
            Some(true) => index_drop(&mut self.user_rooms, user),
            _ => {},
        }
        index_remove(&mut self.room_users, room, user);
        match index_is_empty(&self.room_users, room) {
            Some(true) => index_drop(&mut self.room_users, room),
            _ => {},
        }
        let ghost ur1 = self.user_rooms_view();
        let ghost ru1 = self.room_users_view();
        assert forall|u: Seq<char>, r: Seq<char>| holds(ur1, u, r) == (holds(ur0, u, r) && !(u == user@ && r == room@)) by {}
        assert forall|u: Seq<char>, r: Seq<char>| holds(ru1, r, u) == (holds(ru0, r, u) && !(u == user@ && r == room@)) by {}
        assert(self.members() =~= old(self).members().remove((user@, room@)));
    }

    /// Hands `m` to the channel and records it as published.
    fn publish(&mut self, m: Msg)
        ensures
            final(self).published() == old(self).published().push(m@),
            final(self).user_rooms_view() == old(self).user_rooms_view(),
            final(self).room_users_view() == old(self).room_users_view(),
    {
        let ghost mv = m@;
        let _receivers = bus_send(&self.tx, Arc::new(m));
        self.published = Ghost(self.published@.push(mv));
    }

    /// Applies an incoming message to the registry (a join or a leave of its
    /// sender; a chat line changes nothing), then publishes it unchanged.
    pub fn handle_message(&mut self, msg: Msg)
        requires
            old(self).wf(),
        ensures
            final(self).wf(),
            final(self).members() == (match msg@.data {
                DataView::Join => old(self).members().insert((msg@.username, msg@.room)),
                DataView::Leave => old(self).members().remove((msg@.username, msg@.room)),
                DataView::Msg(_) => old(self).members(),
            }),
            final(self).published() == old(self).published().push(msg@),
    {
        match msg.data {
            MsgData::Join => self.join(&msg.username, &msg.room),
            MsgData::Leave => self.leave(&msg.username, &msg.room),
            MsgData::Msg(_) => {},
        }
        self.publish(msg);
    }

    /// Takes `username` out of every room it is in, publishing one `Leave`
    /// per room. A second call finds no rooms and publishes nothing.
    pub fn handle_disconnect(&mut self, username: &str)
        requires
            old(self).wf(),
        ensures
            final(self).wf(),
            final(self).members() == old(self).members().filter(|p: Pair| p.0 != username@),
            final(self).rooms_of(username@) == Set::<Seq<char>>::empty(),
            final(self).published().len() == old(self).published().len() + old(self).rooms_of(username@).len(),
            final(self).published().subrange(0, old(self).published().len() as int) == old(self).published(),
            forall|j: int| old(self).published().len() <= j < final(self).published().len() ==> {
                &&& (#[trigger] final(self).published()[j]).username == username@
                &&& final(self).published()[j].data == DataView::Leave
            },
            final(self).published().subrange(old(self).published().len() as int, final(self).published().len() as int)
                .map_values(|m: MsgView| m.room).no_duplicates(),
            final(self).published().subrange(old(self).published().len() as int, final(self).published().len() as int)
                .map_values(|m: MsgView| m.room).to_set() == old(self).rooms_of(username@),
    {
        let rooms = self.get_user_rooms(username);
        let user = username.to_string();
        let ghost names = rooms@.map_values(|s: String| s@);
        let ghost start = self.published@.len();
        proof {
            names.unique_seq_to_set();
        }
        let mut i: usize = 0;
        while i < rooms.len()
            invariant
                self.wf(),
                0 <= i <= rooms.len(),
                user@ == username@,
                names == rooms@.map_values(|s: String| s@),
                names.no_duplicates(),
                names.to_set() == old(self).rooms_of(username@),
                names.len() == old(self).rooms_of(username@).len(),
                start == old(self).published().len(),
                self.members() == old(self).members().filter(|p: Pair| !(p.0 == username@ && names.subrange(0, i as int).contains(p.1))),
                self.published().len() == start + i,
                self.published().subrange(0, start as int) == old(self).published(),
                forall|j: int| 0 <= j < i ==> {
                    &&& (#[trigger] self.published()[start + j]).username == username@
                    &&& self.published()[start + j].data == DataView::Leave
                    &&& self.published()[start + j].room == names[j]
                },
            decreases rooms.len() - i,
        {
            self.leave(&user, &rooms[i]);
            let m = Msg::leave(&rooms[i], username);
            self.publish(m);
            proof {
                assert(names[i as int] == rooms@[i as int]@);
                assert(self.members() =~= old(self).members().filter(|p: Pair| !(p.0 == username@ && names.subrange(0, i + 1).contains(p.1)))) by {
                    assert forall|p: Pair| #[trigger] self.members().contains(p) == old(self).members().filter(|p: Pair| !(p.0 == username@ && names.subrange(0, i + 1).contains(p.1))).contains(p) by {
                        assert(names.subrange(0, i + 1).contains(p.1) == (names.subrange(0, i as int).contains(p.1) || p.1 == names[i as int])) by {
                            if names.subrange(0, i + 1).contains(p.1) {
                                let k = choose|k: int| 0 <= k < i + 1 && #[trigger] names.subrange(0, i + 1)[k] == p.1;
                                if k < i {
                                    assert(names.subrange(0, i as int)[k] == p.1);
                                }
                            }
                            if names.subrange(0, i as int).contains(p.1) {
                                let k = choose|k: int| 0 <= k < i && #[trigger] names.subrange(0, i as int)[k] == p.1;
                                assert(names.subrange(0, i + 1)[k] == p.1);
                            }
                            if p.1 == names[i as int] {
                                assert(names.subrange(0, i + 1)[i as int] == p.1);
                            }
                        }
                    }
                }
                assert(self.published().subrange(0, start as int) =~= old(self).published());
            }
            i = i + 1;
        }
        proof {
            let fin = self.published();
            let added = fin.subrange(start as int, fin.len() as int);
            assert(names.subrange(0, names.len() as int) =~= names);
            assert forall|p: Pair| old(self).members().contains(p) && p.0 == username@ implies names.contains(p.1) by {
                assert(names.to_set().contains(p.1));
            }
            assert(self.members() =~= old(self).members().filter(|p: Pair| p.0 != username@));
            assert forall|j: int| start <= j < fin.len() implies {
                &&& (#[trigger] fin[j]).username == username@
                &&& fin[j].data == DataView::Leave
            } by {
                assert(fin[start + (j - start)] == fin[j]);
            }
            let rooms_added = added.map_values(|m: MsgView| m.room);
            assert forall|j: int| 0 <= j < names.len() implies #[trigger] rooms_added[j] == names[j] by {
                assert(added[j] == fin[start + j]);
            }
            assert(rooms_added =~= names);
            if self.user_rooms_view().contains_key(username@) {
                let set = self.user_rooms_view()[username@];
                assert(set != Set::<Seq<char>>::empty());
                let r = set.choose();
                assert(set.contains(r)) by {
                    if !set.contains(r) {
                        assert(set =~= Set::<Seq<char>>::empty());
                    }
                }
                assert(self.members().contains((username@, r)));
            }
            assert(self.rooms_of(username@) =~= Set::<Seq<char>>::empty());
        }
    }
}

impl Default for ChatState {
    fn default() -> (r: ChatState)
        ensures
            r.wf(),
            r.members() == Set::<Pair>::empty(),
            r.published() == Seq::<MsgView>::empty(),
    {
        ChatState::new()
    }
}

/// One registry call, on its (user, room) pair.
pub enum RoomOp {
    Join(Seq<char>, Seq<char>),
    Leave(Seq<char>, Seq<char>),
}

impl RoomOp {
    pub open spec fn pair(self) -> Pair {
        match self {
            RoomOp::Join(u, r) => (u, r),
            RoomOp::Leave(u, r) => (u, r),
        }
    }
}

/// The membership relation after one call, as `join` and `leave` state it.
pub open spec fn apply_op(m: Set<Pair>, op: RoomOp) -> Set<Pair> {
    match op {
        RoomOp::Join(u, r) => m.insert((u, r)),
        RoomOp::Leave(u, r) => m.remove((u, r)),
    }
}

/// The membership relation after a run of calls, in order.
pub open spec fn replay(m: Set<Pair>, ops: Seq<RoomOp>) -> Set<Pair>
    decreases ops.len(),
{
    if ops.len() == 0 {
        m
    } else {
        apply_op(replay(m, ops.drop_last()), ops.last())
    }
}

/// Whether a run of calls leaves `p` a member: if some call in it concerns `p`,
/// the last such call is a join; if none does, `p` was a member before.
pub open spec fn last_call_joins(start: Set<Pair>, ops: Seq<RoomOp>, p: Pair) -> bool {
    if exists|k: int| 0 <= k < ops.len() && (#[trigger] ops[k]).pair() == p {
        exists|k: int|
            0 <= k < ops.len() && (#[trigger] ops[k]).pair() == p && ops[k] is Join
                && forall|k2: int| k < k2 < ops.len() ==> (#[trigger] ops[k2]).pair() != p
    } else {
        start.contains(p)
    }
}

/// After any run of joins and leaves, a user is in a room exactly when the
/// last call on that pair was a join (or, with no such call, when it was in
/// the room before): repeated joins and leaves count once.
pub proof fn lemma_membership_follows_last_call(start: Set<Pair>, ops: Seq<RoomOp>, p: Pair)
    ensures
        replay(start, ops).contains(p) == last_call_joins(start, ops, p),
    decreases ops.len(),
{
    if ops.len() > 0 {
        let prev = ops.drop_last();
        lemma_membership_follows_last_call(start, prev, p);
        let n = ops.len() - 1;
        if ops.last().pair() == p {
            assert(ops[n].pair() == p);
            if ops.last() is Join {
                assert(last_call_joins(start, ops, p));
            } else {
                assert(!last_call_joins(start, ops, p)) by {
                    if exists|k: int|
                        0 <= k < ops.len() && (#[trigger] ops[k]).pair() == p && ops[k] is Join
                            && forall|k2: int| k < k2 < ops.len() ==> (#[trigger] ops[k2]).pair() != p {
                        let k = choose|k: int|
                            0 <= k < ops.len() && (#[trigger] ops[k]).pair() == p && ops[k] is Join
                                && forall|k2: int| k < k2 < ops.len() ==> (#[trigger] ops[k2]).pair() != p;
                        assert(k != n);
                        assert(ops[n].pair() != p);
                    }
                }
            }
        } else {
            assert(replay(start, ops).contains(p) == replay(start, prev).contains(p));
            assert((exists|k: int| 0 <= k < ops.len() && (#[trigger] ops[k]).pair() == p)
                == (exists|k: int| 0 <= k < prev.len() && (#[trigger] prev[k]).pair() == p)) by {
                if exists|k: int| 0 <= k < ops.len() && (#[trigger] ops[k]).pair() == p {
                    let k = choose|k: int| 0 <= k < ops.len() && (#[trigger] ops[k]).pair() == p;
                    assert(prev[k] == ops[k]);
                }
                if exists|k: int| 0 <= k < prev.len() && (#[trigger] prev[k]).pair() == p {
                    let k = choose|k: int| 0 <= k < prev.len() && (#[trigger] prev[k]).pair() == p;
                    assert(prev[k] == ops[k]);
                }
            }
            if exists|k: int|
                0 <= k < ops.len() && (#[trigger] ops[k]).pair() == p && ops[k] is Join
                    && forall|k2: int| k < k2 < ops.len() ==> (#[trigger] ops[k2]).pair() != p {
                let k = choose|k: int|
                    0 <= k < ops.len() && (#[trigger] ops[k]).pair() == p && ops[k] is Join
                        && forall|k2: int| k < k2 < ops.len() ==> (#[trigger] ops[k2]).pair() != p;
                assert(prev[k] == ops[k]);
                assert forall|k2: int| k < k2 < prev.len() implies (#[trigger] prev[k2]).pair() != p by {
                    assert(prev[k2] == ops[k2]);
                }
            }
            if exists|k: int|
                0 <= k < prev.len() && (#[trigger] prev[k]).pair() == p && prev[k] is Join
                    && forall|k2: int| k < k2 < prev.len() ==> (#[trigger] prev[k2]).pair() != p {
                let k = choose|k: int|
                    0 <= k < prev.len() && (#[trigger] prev[k]).pair() == p && prev[k] is Join
                        && forall|k2: int| k < k2 < prev.len() ==> (#[trigger] prev[k2]).pair() != p;
                assert(prev[k] == ops[k]);
                assert forall|k2: int| k < k2 < ops.len() implies (#[trigger] ops[k2]).pair() != p by {
                    if k2 < n {
                        assert(prev[k2] == ops[k2]);
                    }
                }
            }
        }
    }
}

/// In a well-formed registry the two indexes answer alike: `room` lists
/// `user` exactly when `user` lists `room`, exactly when the pair is a
/// member; and no user or room is kept with an empty set.
pub proof fn lemma_indexes_agree(s: &ChatState, user: Seq<char>, room: Seq<char>)
    requires
        s.wf(),
    ensures
        s.users_of(room).contains(user) == s.members().contains((user, room)),
        s.rooms_of(user).contains(room) == s.members().contains((user, room)),
        s.user_rooms_view().contains_key(user) ==> s.rooms_of(user) != Set::<Seq<char>>::empty(),
        s.room_users_view().contains_key(room) ==> s.users_of(room) != Set::<Seq<char>>::empty(),
{
    assert(holds(s.user_rooms_view(), user, room) == holds(s.room_users_view(), room, user));
}

} // verus!
