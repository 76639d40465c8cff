//! The process state: online accounts, chat rooms and the rate-limit records.

use vstd::prelude::*;
use std::collections::VecDeque;
use crate::state::account::OnlineAccount;
use crate::state::chatroom::ChatRoom;
use std::collections::HashMap;
use crate::table::{StrMap, map_of, distinct_keys, has_key, str_entries, lemma_map_of_at, lemma_map_of_remove};
use crate::text::spec_to_uppercase;
use crate::lists::without;

verus! {

broadcast use vstd::std_specs::hash::group_hash_axioms;

pub struct AccountCreationRecord {
    pub address: String,
    pub time: i64,
}

pub struct PasswordResetEntry {
    pub account_name: String,
    pub reset_number: String,
}

/// Live members rendering the same Underground Prison sector. This is
/// independent from chat rooms: the sector is a screen of its own.
pub struct PrisonSectorSession {
    pub host_member_number: i64,
    pub sector_index: i64,
    /// Member numbers, each at most once.
    pub members: Vec<i64>,
}

/// What a member's leaving a room changed, for the messages that follow.
pub struct LeaveOutcome {
    /// The socket.io room of the chat room, if the room existed.
    pub room_socket_name: Option<String>,
    /// The socket of the member, if online.
    pub target_socket: Option<String>,
    /// The member's name ("" when offline).
    pub member_name: String,
    /// How many members the room has left.
    pub remaining: usize,
}

/// The global process state.
pub struct World {
    pub accounts_by_socket: StrMap<OnlineAccount>,
    pub socket_by_member: HashMap<i64, String>,
    pub socket_by_account_name: StrMap<String>,
    pub chat_rooms: StrMap<ChatRoom>,
    /// `"ENV:NAME"` (name upper-cased) to room id.
    pub room_by_name_env: StrMap<String>,
    /// Live prison sector views, one per host and sector.
    pub prison_sector_sessions: Vec<PrisonSectorSession>,
    pub ip_connections: StrMap<VecDeque<i64>>,
    pub account_creation_ip: Vec<AccountCreationRecord>,
    pub password_resets: Vec<PasswordResetEntry>,
    pub next_member_number: i64,
    pub next_password_reset_at: i64,
    pub login_pending: StrMap<()>,
    /// Approximate login queue depth.
    pub login_queue_len: usize,
}

/// The account stored under a socket id.
pub open spec fn account_at(w: World, sid: Seq<char>) -> Option<OnlineAccount> {
    if w.accounts_by_socket.map().contains_key(sid) {
        Some(w.accounts_by_socket.map()[sid])
    } else {
        None
    }
}

/// The account of a member: through the member's socket id.
pub open spec fn account_of_member(w: World, m: i64) -> Option<OnlineAccount> {
    if w.socket_by_member@.contains_key(m) {
        account_at(w, w.socket_by_member@[m]@)
    } else {
        None
    }
}

/// The key under which a room name is found: `ENV:NAME`.
pub open spec fn spec_room_key(env: Seq<char>, name: Seq<char>) -> Seq<char> {
    env + ":"@ + spec_to_uppercase(name)
}

/// The room found by environment and name.
pub open spec fn room_named(w: World, env: Seq<char>, name: Seq<char>) -> Option<ChatRoom> {
    let key = spec_room_key(env, name);
    if w.room_by_name_env.map().contains_key(key) && w.chat_rooms.map().contains_key(
        w.room_by_name_env.map()[key]@,
    ) {
        Some(w.chat_rooms.map()[w.room_by_name_env.map()[key]@])
    } else {
        None
    }
}

/// Some room, in any environment, has this name up to case.
pub open spec fn room_name_taken(w: World, name: Seq<char>) -> bool {
    exists|i: int|
        0 <= i < w.chat_rooms.entries().len() && spec_to_uppercase(
            #[trigger] w.chat_rooms.entries()[i].1.name@,
        ) == spec_to_uppercase(name)
}

/// No two rooms have the same name, up to case.
pub open spec fn room_names_unique(rooms: Map<Seq<char>, ChatRoom>) -> bool {
    forall|a: Seq<char>, b: Seq<char>|
        rooms.contains_key(a) && rooms.contains_key(b) && a != b ==> spec_to_uppercase(#[trigger] rooms[a].name@)
            != spec_to_uppercase(#[trigger] rooms[b].name@)
}

/// A name that no room has, up to case, is the name of no room in the
/// world's map of rooms.
proof fn lemma_untaken_name(w: World, name: Seq<char>)
    requires
        !room_name_taken(w, name),
    ensures
        forall|k: Seq<char>| #[trigger] w.chat_rooms.map().contains_key(k) ==> spec_to_uppercase(w.chat_rooms.map()[k].name@) != spec_to_uppercase(name),
{
    let e = w.chat_rooms.entries();
    assert forall|k: Seq<char>| #[trigger] w.chat_rooms.map().contains_key(k) implies spec_to_uppercase(w.chat_rooms.map()[k].name@) != spec_to_uppercase(name) by {
        assert(has_key(e, k));
        let j = choose|j: int| 0 <= j < e.len() && #[trigger] e[j].0 == k;
        assert(w.chat_rooms.map()[k] == e[j].1);
        if spec_to_uppercase(e[j].1.name@) == spec_to_uppercase(name) {
            assert(room_name_taken(w, name));
        }
    }
}

/// Room names stay unique over all environments, up to case, when a room is
/// added (or put under an id) with a name that no room has: what a room
/// creation that `create_check` accepted does to the rooms.
pub proof fn law_new_room_keeps_names_unique(w: World, room: ChatRoom)
    requires
        room_names_unique(w.chat_rooms.map()),
        !room_name_taken(w, room.name@),
    ensures
        room_names_unique(w.chat_rooms.map().insert(room.id@, room)),
{
    lemma_untaken_name(w, room.name@);
}

/// Room names stay unique over all environments, up to case, when room `id`
/// takes a new name that is its old one up to case, or that no room has:
/// what an update that `apply_room_update` accepted does to the rooms.
pub proof fn law_rename_keeps_names_unique(w: World, id: Seq<char>, room: ChatRoom)
    requires
        room_names_unique(w.chat_rooms.map()),
        w.chat_rooms.map().contains_key(id),
        spec_to_uppercase(w.chat_rooms.map()[id].name@) == spec_to_uppercase(room.name@) || !room_name_taken(
            w,
            room.name@,
        ),
    ensures
        room_names_unique(w.chat_rooms.map().insert(id, room)),
{
    if !room_name_taken(w, room.name@) {
        lemma_untaken_name(w, room.name@);
    }
    let m = w.chat_rooms.map();
    let m2 = m.insert(id, room);
    assert forall|a: Seq<char>, b: Seq<char>|
        m2.contains_key(a) && m2.contains_key(b) && a != b implies spec_to_uppercase(#[trigger] m2[a].name@)
            != spec_to_uppercase(#[trigger] m2[b].name@) by {
        if a == id {
            assert(m.contains_key(b));
        } else if b == id {
            assert(m.contains_key(a));
        } else {
            assert(m2[a] == m[a] && m2[b] == m[b]);
        }
    }
}

/// Room `b` is room `a` with other members.
pub open spec fn same_room_but_members(a: ChatRoom, b: ChatRoom) -> bool {
    b == ChatRoom { members: b.members, ..a }
}

/// The name keys of the rooms that the removal of member `m` empties.
pub open spec fn emptied_room_keys(rooms: Map<Seq<char>, ChatRoom>, m: i64) -> Set<Seq<char>> {
    Set::new(
        |key: Seq<char>|
            exists|id: Seq<char>|
                #![trigger rooms[id]]
                rooms.contains_key(id) && without(rooms[id].members@, m).len() == 0 && spec_room_key(
                    rooms[id].environment@,
                    rooms[id].name@,
                ) == key,
    )
}

/// A prison sector session by host, sector and members.
pub open spec fn session_view(s: PrisonSectorSession) -> (i64, i64, Seq<i64>) {
    (s.host_member_number, s.sector_index, s.members@)
}

pub open spec fn sessions_view(v: Seq<PrisonSectorSession>) -> Seq<(i64, i64, Seq<i64>)> {
    v.map_values(|s: PrisonSectorSession| session_view(s))
}

/// The sessions after member `m` leaves them all: `m` is taken out of each
/// session and the sessions left empty are dropped.
pub open spec fn sessions_without(v: Seq<(i64, i64, Seq<i64>)>, m: i64) -> Seq<(i64, i64, Seq<i64>)> {
    v.map_values(|t: (i64, i64, Seq<i64>)| (t.0, t.1, without(t.2, m))).filter(
        |t: (i64, i64, Seq<i64>)| t.2.len() > 0,
    )
}

/// The host and sector of each session that member `m` was in, in order.
pub open spec fn sessions_of(v: Seq<(i64, i64, Seq<i64>)>, m: i64) -> Seq<(i64, i64)> {
    v.filter(|t: (i64, i64, Seq<i64>)| t.2.contains(m)).map_values(
        |t: (i64, i64, Seq<i64>)| (t.0, t.1),
    )
}

/// Takes member `m` out of every prison sector session, drops the sessions
/// left empty, and returns the host and sector of each session it was in.
pub fn remove_member_from_sessions(sessions: &mut Vec<PrisonSectorSession>, m: i64) -> (r: Vec<(i64, i64)>)
    ensures
        sessions_view(final(sessions)@) == sessions_without(sessions_view(old(sessions)@), m),
        r@ == sessions_of(sessions_view(old(sessions)@), m),
{
    let ghost old_v = sessions_view(sessions@);
    let mut out: Vec<PrisonSectorSession> = Vec::new();
    let mut changed: Vec<(i64, i64)> = Vec::new();
    while sessions.len() > 0
        invariant
            old_v == sessions_view(old(sessions)@),
            sessions@.len() <= old_v.len(),
            sessions_view(sessions@) == old_v.subrange(old_v.len() - sessions@.len(), old_v.len() as int),
            sessions_view(out@) == sessions_without(old_v.subrange(0, old_v.len() - sessions@.len()), m),
            changed@ == sessions_of(old_v.subrange(0, old_v.len() - sessions@.len()), m),
        decreases sessions.len(),
    {
        let ghost done = old_v.len() - sessions@.len();
        let ghost prev = sessions@;
        let ghost prev_out = out@;
        let mut s = sessions.remove(0);
        proof {
            assert(sessions_view(prev)[0] == old_v[done]);
            assert forall|k: int| 0 <= k < sessions@.len() implies #[trigger] sessions_view(sessions@)[k] == old_v[done + 1 + k] by {
                assert(sessions@[k] == prev[k + 1]);
                assert(sessions_view(prev)[k + 1] == old_v.subrange(done, old_v.len() as int)[k + 1]);
            }
            assert(sessions_view(sessions@) =~= old_v.subrange(done + 1, old_v.len() as int));
        }
        let ghost s0 = session_view(s);
        let was_in = crate::lists::contains_i64(&s.members, m);
        crate::lists::retain_ne(&mut s.members, m);
        proof {
            reveal(Seq::filter);
            let pre = old_v.subrange(0, done);
            let pre2 = old_v.subrange(0, done + 1);
            assert(pre2.drop_last() =~= pre);
            assert(pre2.last() == old_v[done]);
            assert(s0 == old_v[done]);
            let f = |t: (i64, i64, Seq<i64>)| (t.0, t.1, without(t.2, m));
            assert(session_view(s) == f(old_v[done]));
            assert(pre2.map_values(f).drop_last() =~= pre.map_values(f));
            assert(pre2.map_values(f).last() == f(old_v[done]));
            let g = |t: (i64, i64, Seq<i64>)| (t.0, t.1);
            let p = |t: (i64, i64, Seq<i64>)| t.2.contains(m);
            assert(pre2.filter(p) == if p(pre2.last()) { pre.filter(p).push(pre2.last()) } else { pre.filter(p) });
            if p(pre2.last()) {
                assert(pre2.filter(p).map_values(g) =~= pre.filter(p).map_values(g).push(g(pre2.last())));
            }
        }
        if was_in {
            changed.push((s.host_member_number, s.sector_index));
        }
        if s.members.len() > 0 {
            out.push(s);
        }
        proof {
            let done2 = old_v.len() - sessions@.len();
            assert(done2 == done + 1);
            let f = |t: (i64, i64, Seq<i64>)| (t.0, t.1, without(t.2, m));
            let q = |t: (i64, i64, Seq<i64>)| t.2.len() > 0;
            let pre = old_v.subrange(0, done);
            let pre2 = old_v.subrange(0, done + 1);
            assert(pre2.map_values(f) =~= pre.map_values(f).push(f(old_v[done])));
            assert(pre2.map_values(f).filter(q) == if q(f(old_v[done])) {
                pre.map_values(f).filter(q).push(f(old_v[done]))
            } else {
                pre.map_values(f).filter(q)
            }) by {
                reveal(Seq::filter);
                assert(pre2.map_values(f).drop_last() =~= pre.map_values(f));
            }
            assert(sessions_view(out@) =~= sessions_without(old_v.subrange(0, done2), m));
            assert(changed@ =~= sessions_of(old_v.subrange(0, done2), m));
        }
    }
    proof {
        assert(old_v.subrange(0, old_v.len() as int) =~= old_v);
    }
    *sessions = out;
    changed
}

/// Creation records from address `ip`.
pub open spec fn from_address(ip: Seq<char>) -> spec_fn(AccountCreationRecord) -> bool {
    |c: AccountCreationRecord| c.address@ == ip
}

/// Creation records from address `ip` at or after time `since`.
pub open spec fn from_address_since(ip: Seq<char>, since: int) -> spec_fn(AccountCreationRecord) -> bool {
    |c: AccountCreationRecord| c.address@ == ip && c.time >= since
}

impl World {
    pub fn new(next_member_number: i64) -> (r: World)
        ensures
            r.accounts_by_socket.map().len() == 0,
            r.socket_by_member@.len() == 0,
            r.socket_by_account_name.map().len() == 0,
            r.chat_rooms.map().len() == 0,
            r.room_by_name_env.map().len() == 0,
            r.prison_sector_sessions@.len() == 0,
            r.ip_connections.map().len() == 0,
            r.account_creation_ip@.len() == 0,
            r.password_resets@.len() == 0,
            r.next_member_number == next_member_number,
            r.next_password_reset_at == 0,
            r.login_pending.map().len() == 0,
            r.login_queue_len == 0,
    {
        World {
            accounts_by_socket: StrMap::new(),
            socket_by_member: HashMap::new(),
            socket_by_account_name: StrMap::new(),
            chat_rooms: StrMap::new(),
            room_by_name_env: StrMap::new(),
            prison_sector_sessions: Vec::new(),
            ip_connections: StrMap::new(),
            account_creation_ip: Vec::new(),
            password_resets: Vec::new(),
            next_member_number,
            next_password_reset_at: 0,
            login_pending: StrMap::new(),
            login_queue_len: 0,
        }
    }

    /// Number of online sessions.
    pub fn online_count(&self) -> (r: usize)
        ensures
            r == self.accounts_by_socket.entries().len(),
    {
        self.accounts_by_socket.len()
    }

    /// Hands out the next member number (wrapping at the end of the range).
    pub fn allocate_member_number(&mut self) -> (r: i64)
        ensures
            r == old(self).next_member_number,
            final(self).next_member_number == if old(self).next_member_number == i64::MAX {
                i64::MIN
            } else {
                (old(self).next_member_number + 1) as i64
            },
            final(self).accounts_by_socket == old(self).accounts_by_socket,
            final(self).socket_by_member == old(self).socket_by_member,
            final(self).chat_rooms == old(self).chat_rooms,
    {
        let r = self.next_member_number;
        self.next_member_number = if r == i64::MAX { i64::MIN } else { r + 1 };
        r
    }

    pub fn get_by_socket(&self, socket_id: &str) -> (r: Option<&OnlineAccount>)
        ensures
            match r {
                Some(a) => account_at(*self, socket_id@) == Some(*a),
                None => account_at(*self, socket_id@) is None,
            },
    {
        self.accounts_by_socket.get(socket_id)
    }

    pub fn get_by_member(&self, member: i64) -> (r: Option<&OnlineAccount>)
        ensures
            match r {
                Some(a) => account_of_member(*self, member) == Some(*a),
                None => account_of_member(*self, member) is None,
            },
    {
        match self.socket_by_member.get(&member) {
            Some(sid) => self.accounts_by_socket.get(sid.as_str()),
            None => None,
        }
    }

    /// Registers an online account under its socket id, member number and
    /// account name.
    pub fn insert_account(&mut self, account: OnlineAccount)
        ensures
            final(self).socket_by_member@ == old(self).socket_by_member@.insert(
                account.member_number,
                account.socket_id,
            ),
            final(self).socket_by_account_name.map() == old(self).socket_by_account_name.map().insert(account.account_name@, account.socket_id),
            final(self).accounts_by_socket.map() == old(self).accounts_by_socket.map().insert(
                account.socket_id@,
                account,
            ),
            final(self).chat_rooms == old(self).chat_rooms,
            final(self).room_by_name_env == old(self).room_by_name_env,
            final(self).prison_sector_sessions == old(self).prison_sector_sessions,
            final(self).login_pending == old(self).login_pending,
    {
        let socket_id = account.socket_id.clone();
        let member = account.member_number;
        let name = account.account_name.clone();
        self.socket_by_member.insert(member, socket_id.clone());
        self.socket_by_account_name.insert(name, socket_id.clone());
        self.accounts_by_socket.insert(socket_id, account);
    }

    /// The socket id of a session already logged in under this account name.
    pub fn find_duplicate_login(&self, account_name: &str) -> (r: Option<String>)
        ensures
            match r {
                Some(s) => self.socket_by_account_name.map().contains_key(account_name@)
                    && self.socket_by_account_name.map()[account_name@] == s,
                None => !self.socket_by_account_name.map().contains_key(account_name@),
            },
    {
        match self.socket_by_account_name.get(account_name) {
            Some(s) => Some(s.clone()),
            None => None,
        }
    }

    pub fn room_key(env: &str, name: &str) -> (r: String)
        ensures
            r@ == spec_room_key(env@, name@),
    {
        let mut key = crate::text::to_owned_string(env);
        key.append(":");
        let upper = crate::text::to_uppercase(name);
        key.append(upper.as_str());
        proof {
            reveal_strlit(":");
        }
        assert(key@ =~= spec_room_key(env@, name@));
        key
    }

    pub fn get_room_by_name(&self, env: &str, name: &str) -> (r: Option<&ChatRoom>)
        ensures
            match r {
                Some(room) => room_named(*self, env@, name@) == Some(*room),
                None => room_named(*self, env@, name@) is None,
            },
    {
        let key = World::room_key(env, name);
        match self.room_by_name_env.get(key.as_str()) {
            Some(id) => self.chat_rooms.get(id.as_str()),
            None => None,
        }
    }

    /// Room names are unique over all environments, up to case.
    pub fn room_name_exists_any(&self, name: &str) -> (r: bool)
        ensures
            r == room_name_taken(*self, name@),
    {
        let upper = crate::text::to_uppercase(name);
        let mut i: usize = 0;
        while i < self.chat_rooms.len()
            invariant
                i <= self.chat_rooms.entries().len(),
                upper@ == spec_to_uppercase(name@),
                forall|j: int|
                    0 <= j < i ==> spec_to_uppercase(#[trigger] self.chat_rooms.entries()[j].1.name@)
                        != upper@,
            decreases self.chat_rooms.entries().len() - i,
        {
            let room = self.chat_rooms.value_at(i);
            let room_upper = crate::text::to_uppercase(room.name.as_str());
            if crate::text::str_eq(room_upper.as_str(), upper.as_str()) {
                return true;
            }
            i += 1;
        }
        false
    }

    /// Adds a room under its id and its name key.
    pub fn insert_room(&mut self, room: ChatRoom)
        ensures
            final(self).room_by_name_env.map() == old(self).room_by_name_env.map().insert(
                spec_room_key(room.environment@, room.name@),
                room.id,
            ),
            final(self).chat_rooms.map() == old(self).chat_rooms.map().insert(room.id@, room),
            final(self).accounts_by_socket == old(self).accounts_by_socket,
            final(self).socket_by_member == old(self).socket_by_member,
            final(self).socket_by_account_name == old(self).socket_by_account_name,
    {
        let key = World::room_key(room.environment.as_str(), room.name.as_str());
        let id = room.id.clone();
        self.room_by_name_env.insert(key, room.id.clone());
        self.chat_rooms.insert(id, room);
    }

    /// Removes a room and its name key.
    pub fn remove_room(&mut self, room_id: &str)
        ensures
            final(self).chat_rooms.map() == old(self).chat_rooms.map().remove(room_id@),
            final(self).room_by_name_env.map() == if old(self).chat_rooms.map().contains_key(
                room_id@,
            ) {
                let room = old(self).chat_rooms.map()[room_id@];
                old(self).room_by_name_env.map().remove(
                    spec_room_key(room.environment@, room.name@),
                )
            } else {
                old(self).room_by_name_env.map()
            },
            final(self).accounts_by_socket == old(self).accounts_by_socket,
            final(self).socket_by_member == old(self).socket_by_member,
            final(self).socket_by_account_name == old(self).socket_by_account_name,
            final(self).prison_sector_sessions == old(self).prison_sector_sessions,
            final(self).login_pending == old(self).login_pending,
    {
        if let Some(room) = self.chat_rooms.remove(room_id) {
            let key = World::room_key(room.environment.as_str(), room.name.as_str());
            self.room_by_name_env.remove(key.as_str());
        }
    }

    /// Takes `member` out of every room, removes the rooms left empty, and
    /// clears the member's current room.
    #[verifier::rlimit(80)]
    #[verifier::spinoff_prover]
    pub fn remove_member_from_all_rooms(&mut self, member: i64)
        ensures
            forall|id: Seq<char>|
                #[trigger] final(self).chat_rooms.map().contains_key(id) <==> old(self).chat_rooms.map().contains_key(id) && without(
                    old(self).chat_rooms.map()[id].members@,
                    member,
                ).len() > 0,
            forall|id: Seq<char>|
                #[trigger] final(self).chat_rooms.map().contains_key(id) ==> final(self).chat_rooms.map()[id].members@ == without(
                    old(self).chat_rooms.map()[id].members@,
                    member,
                ) && same_room_but_members(
                    old(self).chat_rooms.map()[id],
                    final(self).chat_rooms.map()[id],
                ),
            final(self).room_by_name_env.map() == old(self).room_by_name_env.map().remove_keys(
                emptied_room_keys(old(self).chat_rooms.map(), member),
            ),
            match account_of_member(*old(self), member) {
                Some(acc) => if old(self).accounts_by_socket.map().contains_key(acc.socket_id@) {
                    final(self).accounts_by_socket.map() == old(self).accounts_by_socket.map().insert(
                        acc.socket_id@,
                        OnlineAccount {
                            chat_room_id: None,
                            ..old(self).accounts_by_socket.map()[acc.socket_id@]
                        },
                    )
                } else {
                    final(self).accounts_by_socket.map() == old(self).accounts_by_socket.map()
                },
                None => final(self).accounts_by_socket.map() == old(self).accounts_by_socket.map(),
            },
            final(self).socket_by_member == old(self).socket_by_member,
            final(self).socket_by_account_name == old(self).socket_by_account_name,
            final(self).prison_sector_sessions == old(self).prison_sector_sessions,
            final(self).login_pending == old(self).login_pending,
    {
        let ghost old_rooms = self.chat_rooms.map();
        let ghost old_names = self.room_by_name_env.map();
        let ghost old_world = *self;
        self.chat_rooms.keys_distinct();
        let mut taken: StrMap<ChatRoom> = StrMap::new();
        std::mem::swap(&mut taken, &mut self.chat_rooms);
        let mut rooms = taken.into_vec();
        let ghost orig = rooms@;
        let mut emptied: Vec<String> = Vec::new();
        let ghost mut src: Seq<int> = Seq::empty();
        let ghost mut slot: Seq<int> = Seq::empty();
        let mut i: usize = 0;
        while i < rooms.len()
            invariant
                i <= rooms.len(),
                rooms@.len() == orig.len(),
                map_of(str_entries(orig)) == old_rooms,
                distinct_keys(str_entries(orig)),
                forall|j: int| 0 <= j < rooms@.len() ==> #[trigger] rooms@[j].0 == orig[j].0,
                forall|j: int|
                    0 <= j < i ==> (#[trigger] rooms@[j]).1.members@ == without(orig[j].1.members@, member)
                        && same_room_but_members(orig[j].1, rooms@[j].1),
                forall|j: int| i <= j < rooms@.len() ==> #[trigger] rooms@[j] == orig[j],
                src.len() == emptied@.len(),
                slot.len() == i,
                forall|x: int|
                    0 <= x < src.len() ==> 0 <= #[trigger] src[x] < i && orig[src[x]].0@ == emptied@[x]@
                        && slot[src[x]] == x,
                forall|x: int, y: int| 0 <= x < y < src.len() ==> #[trigger] src[x] < #[trigger] src[y],
                forall|j: int|
                    0 <= j < i ==> (#[trigger] slot[j] >= 0 <==> without(orig[j].1.members@, member).len() == 0),
                forall|j: int|
                    0 <= j < i && #[trigger] slot[j] >= 0 ==> slot[j] < src.len() && src[slot[j]] == j,
            decreases rooms.len() - i,
        {
            let mut entry = rooms.remove(i);
            crate::lists::retain_ne(&mut entry.1.members, member);
            assert(entry.1.members@ == without(orig[i as int].1.members@, member));
            if entry.1.members.len() == 0 {
                emptied.push(entry.0.clone());
                proof {
                    slot = slot.push(src.len() as int);
                    src = src.push(i as int);
                }
            } else {
                proof {
                    slot = slot.push(-1);
                }
            }
            rooms.insert(i, entry);
            i += 1;
        }
        proof {
            assert forall|x: int, y: int| 0 <= x < y < emptied@.len() implies #[trigger] emptied@[x]@ != #[trigger] emptied@[y]@ by {
                assert(src[x] < src[y]);
                assert(str_entries(orig)[src[x]].0 != str_entries(orig)[src[y]].0);
            }
        }
        proof {
            assert(str_entries(rooms@).len() == str_entries(orig).len());
            assert forall|a: int, b: int|
                0 <= a < str_entries(rooms@).len() && 0 <= b < str_entries(rooms@).len() && a != b
                implies #[trigger] str_entries(rooms@)[a].0 != #[trigger] str_entries(rooms@)[b].0 by {
                assert(str_entries(rooms@)[a].0 == str_entries(orig)[a].0);
                assert(str_entries(rooms@)[b].0 == str_entries(orig)[b].0);
            }
        }
        let ghost mid = rooms@;
        self.chat_rooms = StrMap::from_vec(rooms);
        let ghost mid_rooms = self.chat_rooms.map();
        proof {
            assert forall|id: Seq<char>|
                #[trigger] mid_rooms.contains_key(id) <==> old_rooms.contains_key(id) by {
                if has_key(str_entries(mid), id) {
                    let j = choose|j: int|
                        0 <= j < str_entries(mid).len() && #[trigger] str_entries(mid)[j].0 == id;
                    assert(str_entries(orig)[j].0 == id);
                }
                if has_key(str_entries(orig), id) {
                    let j = choose|j: int|
                        0 <= j < str_entries(orig).len() && #[trigger] str_entries(orig)[j].0 == id;
                    assert(str_entries(mid)[j].0 == id);
                }
            }
            assert forall|id: Seq<char>| #[trigger] mid_rooms.contains_key(id) implies mid_rooms[id].members@
                == without(old_rooms[id].members@, member) && same_room_but_members(
                old_rooms[id],
                mid_rooms[id],
            ) && (without(old_rooms[id].members@, member).len() == 0 <==> exists|x: int|
                0 <= x < emptied@.len() && #[trigger] emptied@[x]@ == id) by {
                let j = choose|j: int|
                    0 <= j < str_entries(mid).len() && #[trigger] str_entries(mid)[j].0 == id;
                lemma_map_of_at(str_entries(mid), j);
                lemma_map_of_at(str_entries(orig), j);
                assert(str_entries(orig)[j].0 == id);
                if without(old_rooms[id].members@, member).len() == 0 {
                    assert(slot[j] >= 0);
                    assert(emptied@[slot[j]]@ == id);
                }
                if exists|x: int| 0 <= x < emptied@.len() && #[trigger] emptied@[x]@ == id {
                    let x = choose|x: int| 0 <= x < emptied@.len() && #[trigger] emptied@[x]@ == id;
                    let j2 = src[x];
                    assert(str_entries(orig)[j2].0 == id);
                    lemma_map_of_at(str_entries(orig), j2);
                }
            }
            assert forall|x: int| 0 <= x < emptied@.len() implies #[trigger] mid_rooms.contains_key(emptied@[x]@) by {
                let j = src[x];
                assert(str_entries(mid)[j].0 == emptied@[x]@);
            }
            assert(self.room_by_name_env.map() =~= old_names.remove_keys(Set::new(
                |key: Seq<char>|
                    exists|x: int|
                        0 <= x < 0 && #[trigger] spec_room_key(
                            mid_rooms[emptied@[x]@].environment@,
                            mid_rooms[emptied@[x]@].name@,
                        ) == key,
            )));
            assert(self.chat_rooms.map() =~= mid_rooms.remove_keys(Set::new(
                |id: Seq<char>| exists|x: int| 0 <= x < 0 && #[trigger] emptied@[x]@ == id,
            )));
        }
        let mut k: usize = 0;
        while k < emptied.len()
            invariant
                k <= emptied.len(),
                forall|x: int| 0 <= x < emptied@.len() ==> #[trigger] mid_rooms.contains_key(emptied@[x]@),
                forall|x: int, y: int|
                    0 <= x < y < emptied@.len() ==> #[trigger] emptied@[x]@ != #[trigger] emptied@[y]@,
                self.chat_rooms.map() == mid_rooms.remove_keys(
                    Set::new(|id: Seq<char>| exists|x: int| 0 <= x < k && #[trigger] emptied@[x]@ == id),
                ),
                self.room_by_name_env.map() == old_names.remove_keys(
                    Set::new(
                        |key: Seq<char>|
                            exists|x: int|
                                0 <= x < k && #[trigger] spec_room_key(
                                    mid_rooms[emptied@[x]@].environment@,
                                    mid_rooms[emptied@[x]@].name@,
                                ) == key,
                    ),
                ),
                self.accounts_by_socket == old_world.accounts_by_socket,
                self.socket_by_member == old_world.socket_by_member,
                self.socket_by_account_name == old_world.socket_by_account_name,
                self.prison_sector_sessions == old_world.prison_sector_sessions,
                self.login_pending == old_world.login_pending,
            decreases emptied.len() - k,
        {
            let ghost before_rooms = self.chat_rooms.map();
            let ghost before_names = self.room_by_name_env.map();
            let ghost id = emptied@[k as int]@;
            proof {
                assert(before_rooms.contains_key(id)) by {
                    assert forall|x: int| 0 <= x < k implies #[trigger] emptied@[x]@ != id by {
                        assert(emptied@[x]@ != emptied@[k as int]@);
                    }
                }
            }
            self.remove_room(emptied[k].as_str());
            proof {
                assert(self.chat_rooms.map() =~= mid_rooms.remove_keys(
                    Set::new(|id2: Seq<char>| exists|x: int| 0 <= x < k + 1 && #[trigger] emptied@[x]@ == id2),
                )) by {
                    if emptied@[k as int]@ == id {}
                }
                assert(self.room_by_name_env.map() =~= old_names.remove_keys(
                    Set::new(
                        |key: Seq<char>|
                            exists|x: int|
                                0 <= x < k + 1 && #[trigger] spec_room_key(
                                    mid_rooms[emptied@[x]@].environment@,
                                    mid_rooms[emptied@[x]@].name@,
                                ) == key,
                    ),
                )) by {
                    assert(before_rooms[id] == mid_rooms[id]);
                    let kk = spec_room_key(mid_rooms[id].environment@, mid_rooms[id].name@);
                    assert(spec_room_key(
                        mid_rooms[emptied@[k as int]@].environment@,
                        mid_rooms[emptied@[k as int]@].name@,
                    ) == kk);
                }
            }
            k += 1;
        }
        proof {
            let fin_keys = Set::new(
                |key: Seq<char>|
                    exists|x: int|
                        0 <= x < emptied@.len() && #[trigger] spec_room_key(
                            mid_rooms[emptied@[x]@].environment@,
                            mid_rooms[emptied@[x]@].name@,
                        ) == key,
            );
            assert(fin_keys =~= emptied_room_keys(old_rooms, member)) by {
                assert forall|key: Seq<char>| fin_keys.contains(key) implies emptied_room_keys(old_rooms, member).contains(key) by {
                    let x = choose|x: int|
                        0 <= x < emptied@.len() && #[trigger] spec_room_key(
                            mid_rooms[emptied@[x]@].environment@,
                            mid_rooms[emptied@[x]@].name@,
                        ) == key;
                    let id = emptied@[x]@;
                    assert(mid_rooms.contains_key(id));
                    assert(old_rooms[id].environment == mid_rooms[id].environment);
                }
                assert forall|key: Seq<char>| emptied_room_keys(old_rooms, member).contains(key) implies fin_keys.contains(key) by {
                    let id = choose|id: Seq<char>|
                        #![trigger old_rooms[id]]
                        old_rooms.contains_key(id) && without(old_rooms[id].members@, member).len() == 0
                            && spec_room_key(old_rooms[id].environment@, old_rooms[id].name@) == key;
                    assert(mid_rooms.contains_key(id));
                    let x = choose|x: int| 0 <= x < emptied@.len() && #[trigger] emptied@[x]@ == id;
                    assert(spec_room_key(
                        mid_rooms[emptied@[x]@].environment@,
                        mid_rooms[emptied@[x]@].name@,
                    ) == key);
                }
            }
            assert forall|id: Seq<char>| #[trigger] self.chat_rooms.map().contains_key(id) <==> old_rooms.contains_key(id) && without(old_rooms[id].members@, member).len() > 0 by {
                if mid_rooms.contains_key(id) && without(old_rooms[id].members@, member).len() == 0 {
                    let x = choose|x: int| 0 <= x < emptied@.len() && #[trigger] emptied@[x]@ == id;
                }
            }
        }
        let sid = match self.get_by_member(member) {
            Some(acc) => Some(acc.socket_id.clone()),
            None => None,
        };
        if let Some(sid) = sid {
            if let Some(mut acc) = self.accounts_by_socket.remove(sid.as_str()) {
                acc.chat_room_id = None;
                self.accounts_by_socket.insert(sid, acc);
                proof {
                    assert(self.accounts_by_socket.map() =~= old_world.accounts_by_socket.map().insert(
                        sid@,
                        OnlineAccount { chat_room_id: None, ..old_world.accounts_by_socket.map()[sid@] },
                    ));
                }
            }
        }
    }

    /// Removes an online account; returns it with each prison sector whose
    /// membership changed. The pending-login mark of the socket goes either way.
    pub fn remove_account(&mut self, socket_id: &str) -> (r: Option<(OnlineAccount, Vec<(i64, i64)>)>)
        ensures
            final(self).login_pending.map() == old(self).login_pending.map().remove(socket_id@),
            final(self).chat_rooms == old(self).chat_rooms,
            final(self).room_by_name_env == old(self).room_by_name_env,
            match account_at(*old(self), socket_id@) {
                Some(acc) => {
                    &&& r matches Some(p) && p.0 == acc && p.1@ == sessions_of(
                        sessions_view(old(self).prison_sector_sessions@),
                        acc.member_number,
                    )
                    &&& final(self).accounts_by_socket.map() == old(self).accounts_by_socket.map().remove(socket_id@)
                    &&& final(self).socket_by_member@ == old(self).socket_by_member@.remove(acc.member_number)
                    &&& final(self).socket_by_account_name.map() == old(self).socket_by_account_name.map().remove(
                        acc.account_name@,
                    )
                    &&& sessions_view(final(self).prison_sector_sessions@) == sessions_without(
                        sessions_view(old(self).prison_sector_sessions@),
                        acc.member_number,
                    )
                },
                None => {
                    &&& r is None
                    &&& final(self).accounts_by_socket == old(self).accounts_by_socket
                    &&& final(self).socket_by_member == old(self).socket_by_member
                    &&& final(self).socket_by_account_name == old(self).socket_by_account_name
                    &&& final(self).prison_sector_sessions == old(self).prison_sector_sessions
                },
            },
    {
        match self.accounts_by_socket.remove(socket_id) {
            Some(acc) => {
                self.socket_by_member.remove(&acc.member_number);
                self.socket_by_account_name.remove(acc.account_name.as_str());
                self.login_pending.remove(socket_id);
                let changed = remove_member_from_sessions(&mut self.prison_sector_sessions, acc.member_number);
                Some((acc, changed))
            },
            None => {
                self.login_pending.remove(socket_id);
                None
            },
        }
    }

    /// Account creations from `ip` so far, and those within the hour before
    /// `now`. Creation records are never pruned.
    pub fn count_creations_for_ip_at(&self, ip: &str, now: i64) -> (r: (usize, usize))
        ensures
            r.0 == self.account_creation_ip@.filter(from_address(ip@)).len(),
            r.1 == self.account_creation_ip@.filter(from_address_since(ip@, now - 3_600_000)).len(),
    {
        let ghost v = self.account_creation_ip@;
        let ghost p = from_address(ip@);
        let ghost q = from_address_since(ip@, now - 3_600_000);
        let mut total: usize = 0;
        let mut hour: usize = 0;
        let mut i: usize = 0;
        while i < self.account_creation_ip.len()
            invariant
                i <= v.len(),
                v == self.account_creation_ip@,
                p == from_address(ip@),
                q == from_address_since(ip@, now - 3_600_000),
                total == v.take(i as int).filter(p).len(),
                hour == v.take(i as int).filter(q).len(),
                hour <= total <= i,
            decreases v.len() - i,
        {
            proof {
                crate::lists::lemma_filter_take_step(v, p, i as int);
                crate::lists::lemma_filter_take_step(v, q, i as int);
            }
            let r = &self.account_creation_ip[i];
            if crate::text::str_eq(r.address.as_str(), ip) {
                total += 1;
                if (r.time as i128) >= (now as i128) - 3_600_000 {
                    hour += 1;
                }
            }
            i += 1;
        }
        assert(v.take(v.len() as int) =~= v);
        (total, hour)
    }

    /// Account creations from `ip` so far, and those within the last hour.
    pub fn count_creations_for_ip(&self, ip: &str) -> (r: (usize, usize))
        ensures
            r.0 == self.account_creation_ip@.filter(from_address(ip@)).len(),
            exists|now: i64|
                r.1 == self.account_creation_ip@.filter(#[trigger] from_address_since(ip@, now - 3_600_000)).len(),
    {
        let now = crate::time::common_time();
        self.count_creations_for_ip_at(ip, now)
    }

    /// Takes `member` out of room `room_id` (the room is removed once
    /// empty) and clears the member's current room.
    pub fn leave_room(&mut self, room_id: &str, member: i64) -> (r: LeaveOutcome)
        ensures
            final(self).socket_by_member == old(self).socket_by_member,
            final(self).socket_by_account_name == old(self).socket_by_account_name,
            final(self).prison_sector_sessions == old(self).prison_sector_sessions,
            final(self).login_pending == old(self).login_pending,
            match account_of_member(*old(self), member) {
                Some(acc) => {
                    &&& final(self).accounts_by_socket.map() == old(self).accounts_by_socket.map().insert(
                        old(self).socket_by_member@[member]@,
                        OnlineAccount { chat_room_id: None, ..acc },
                    )
                    &&& r.target_socket matches Some(t) && t == old(self).socket_by_member@[member]
                    &&& r.member_name == acc.name
                },
                None => {
                    &&& final(self).accounts_by_socket == old(self).accounts_by_socket
                    &&& r.target_socket is None
                    &&& r.member_name@ == Seq::<char>::empty()
                },
            },
            if old(self).chat_rooms.map().contains_key(room_id@) {
                let room = old(self).chat_rooms.map()[room_id@];
                let ms = without(room.members@, member);
                &&& r.room_socket_name matches Some(n) && n@ == room.spec_socket_room_name()
                &&& r.remaining == ms.len()
                &&& if ms.len() == 0 {
                    &&& final(self).chat_rooms.map() == old(self).chat_rooms.map().remove(room_id@)
                    &&& final(self).room_by_name_env.map() == old(self).room_by_name_env.map().remove(
                        spec_room_key(room.environment@, room.name@),
                    )
                } else {
                    &&& final(self).chat_rooms.map().remove(room_id@) == old(self).chat_rooms.map().remove(room_id@)
                    &&& final(self).chat_rooms.map().contains_key(room_id@)
                    &&& final(self).chat_rooms.map()[room_id@].members@ == ms
                    &&& same_room_but_members(room, final(self).chat_rooms.map()[room_id@])
                    &&& final(self).room_by_name_env == old(self).room_by_name_env
                }
            } else {
                &&& r.room_socket_name is None
                &&& r.remaining == 0
                &&& final(self).chat_rooms == old(self).chat_rooms
                &&& final(self).room_by_name_env == old(self).room_by_name_env
            },
    {
        let (target_socket, member_name) = match self.get_by_member(member) {
            Some(acc) => (Some(acc.socket_id.clone()), acc.name.clone()),
            None => (None, String::new()),
        };
        let target = match self.socket_by_member.get(&member) {
            Some(sid) => Some(sid.clone()),
            None => None,
        };
        if let Some(sid) = &target {
            if let Some(mut acc) = self.accounts_by_socket.remove(sid.as_str()) {
                acc.chat_room_id = None;
                self.accounts_by_socket.insert(sid.clone(), acc);
            }
        }
        let target_socket = match target_socket {
            Some(_) => target,
            None => None,
        };
        match self.chat_rooms.remove(room_id) {
            Some(mut room) => {
                let name = room.socket_room_name();
                crate::lists::retain_ne(&mut room.members, member);
                let remaining = room.members.len();
                if remaining == 0 {
                    let key = World::room_key(room.environment.as_str(), room.name.as_str());
                    self.room_by_name_env.remove(key.as_str());
                } else {
                    self.chat_rooms.insert(crate::text::to_owned_string(room_id), room);
                    proof {
                        assert(self.chat_rooms.map().remove(room_id@) =~= old(self).chat_rooms.map().remove(room_id@));
                    }
                }
                LeaveOutcome { room_socket_name: Some(name), target_socket, member_name, remaining }
            },
            None => LeaveOutcome { room_socket_name: None, target_socket, member_name, remaining: 0 },
        }
    }

    /// Adds `member` (on socket `socket_id`) to room `room_id` and makes it
    /// the member's current room.
    pub fn enter_room(&mut self, socket_id: &str, room_id: &str, member: i64)
        ensures
            final(self).socket_by_member == old(self).socket_by_member,
            final(self).socket_by_account_name == old(self).socket_by_account_name,
            final(self).room_by_name_env == old(self).room_by_name_env,
            final(self).prison_sector_sessions == old(self).prison_sector_sessions,
            if old(self).chat_rooms.map().contains_key(room_id@) {
                let room = old(self).chat_rooms.map()[room_id@];
                &&& final(self).chat_rooms.map().remove(room_id@) == old(self).chat_rooms.map().remove(room_id@)
                &&& final(self).chat_rooms.map().contains_key(room_id@)
                &&& final(self).chat_rooms.map()[room_id@].members@ == room.members@.push(member)
                &&& same_room_but_members(room, final(self).chat_rooms.map()[room_id@])
            } else {
                final(self).chat_rooms == old(self).chat_rooms
            },
            match account_at(*old(self), socket_id@) {
                Some(acc) => final(self).accounts_by_socket.map() == old(self).accounts_by_socket.map().insert(
                    socket_id@,
                    OnlineAccount { chat_room_id: Some(final(self).accounts_by_socket.map()[socket_id@].chat_room_id.unwrap()), ..acc },
                ) && final(self).accounts_by_socket.map()[socket_id@].chat_room_id.unwrap()@ == room_id@,
                None => final(self).accounts_by_socket == old(self).accounts_by_socket,
            },
    {
        if let Some(mut room) = self.chat_rooms.remove(room_id) {
            room.members.push(member);
            self.chat_rooms.insert(crate::text::to_owned_string(room_id), room);
            proof {
                assert(self.chat_rooms.map().remove(room_id@) =~= old(self).chat_rooms.map().remove(room_id@));
            }
        }
        if let Some(mut acc) = self.accounts_by_socket.remove(socket_id) {
            acc.chat_room_id = Some(crate::text::to_owned_string(room_id));
            self.accounts_by_socket.insert(crate::text::to_owned_string(socket_id), acc);
        }
    }
}

} // verus!
