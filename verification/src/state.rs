//! The shared state store: users, sessions, socket attachments, file
//! ownership records and pending transfers.

use vstd::prelude::*;
use crate::discovery::DiscoveryService;
use crate::model::{
    is_expired, is_live, lemma_connect_keeps_inv, lemma_disconnect_keeps_inv,
    lemma_announce_keeps_inv, lemma_initial_state, lemma_live_users_step,
    lemma_rename_keeps_inv, live_users_in, AppStateView,
};
use crate::table::{StrSet, Table};
use crate::text::str_eq;
use crate::transfer::ChunkSender;

verus! {

/// Milliseconds after which a session without sockets counts as expired.
pub const GRACE_MILLIS: u64 = 600_000;

/// The view of an optional string.
pub open spec fn opt_view(s: Option<String>) -> Option<Seq<char>> {
    match s {
        Some(t) => Some(t@),
        None => None,
    }
}

/// A user profile.
pub struct User {
    pub id: String,
    pub name: String,
    pub color: String,
    pub device: String,
}

pub struct UserView {
    pub id: Seq<char>,
    pub name: Seq<char>,
    pub color: Seq<char>,
    pub device: Seq<char>,
}

impl View for User {
    type V = UserView;

    open spec fn view(&self) -> UserView {
        UserView { id: self.id@, name: self.name@, color: self.color@, device: self.device@ }
    }
}

impl Clone for User {
    fn clone(&self) -> (r: User)
        ensures
            r == *self,
    {
        User {
            id: self.id.clone(),
            name: self.name.clone(),
            color: self.color.clone(),
            device: self.device.clone(),
        }
    }
}

/// A session: one user profile and the sockets attached to it.
/// `disconnect_time` is in milliseconds since the Unix epoch.
pub struct Session {
    pub user: User,
    pub disconnect_time: Option<u64>,
    pub active_sockets: StrSet,
}

pub struct SessionView {
    pub user: UserView,
    pub disconnect_time: Option<u64>,
    pub active_sockets: Set<Seq<char>>,
}

impl View for Session {
    type V = SessionView;

    open spec fn view(&self) -> SessionView {
        SessionView {
            user: self.user@,
            disconnect_time: self.disconnect_time,
            active_sockets: self.active_sockets@,
        }
    }
}

impl Session {
    pub open spec fn wf(&self) -> bool {
        self.active_sockets.wf()
    }
}

/// Who announced a file, and under which name and size.
pub struct FileOwner {
    pub owning_socket: String,
    pub file_name: String,
    pub file_size: u64,
}

pub struct FileOwnerView {
    pub owning_socket: Seq<char>,
    pub file_name: Seq<char>,
    pub file_size: u64,
}

impl View for FileOwner {
    type V = FileOwnerView;

    open spec fn view(&self) -> FileOwnerView {
        FileOwnerView {
            owning_socket: self.owning_socket@,
            file_name: self.file_name@,
            file_size: self.file_size,
        }
    }
}

impl Clone for FileOwner {
    fn clone(&self) -> (r: FileOwner)
        ensures
            r == *self,
    {
        FileOwner {
            owning_socket: self.owning_socket.clone(),
            file_name: self.file_name.clone(),
            file_size: self.file_size,
        }
    }
}

/// The views of a sequence of profiles.
pub open spec fn user_views(users: Seq<User>) -> Seq<UserView> {
    users.map_values(|u: User| u@)
}

/// The state store. Its tables refer to one another by identifier only.
pub struct AppState {
    sessions: Table<Session>,
    socket_to_session: Table<String>,
    socket_room_codes: Table<Option<String>>,
    file_owners: Table<FileOwner>,
    transfers: Table<ChunkSender>,
    server_url: String,
    discovery: DiscoveryService,
    room_code_enabled: bool,
    room_code: Option<String>,
}

impl View for AppState {
    type V = AppStateView;

    closed spec fn view(&self) -> AppStateView {
        AppStateView {
            sessions: self.sessions.map().map_values(|s: Session| s@),
            session_order: self.sessions.keys(),
            socket_to_session: self.socket_to_session.map().map_values(|s: String| s@),
            socket_room_codes: self.socket_room_codes.map().map_values(
                |c: Option<String>| opt_view(c),
            ),
            file_owners: self.file_owners.map().map_values(|f: FileOwner| f@),
            transfers: self.transfers.map(),
            server_url: self.server_url@,
            discovery_enabled: self.discovery.enabled(),
            discovery_running: self.discovery.running(),
            room_code_enabled: self.room_code_enabled,
            room_code: opt_view(self.room_code),
        }
    }
}

impl Default for AppState {
    /// The store right after start.
    fn default() -> (r: AppState)
        ensures
            r.wf(),
            r@ == AppStateView::initial(),
    {
        let r = AppState {
            sessions: Table::new(),
            socket_to_session: Table::new(),
            socket_room_codes: Table::new(),
            file_owners: Table::new(),
            transfers: Table::new(),
            server_url: String::new(),
            discovery: DiscoveryService::new(true),
            room_code_enabled: false,
            room_code: None,
        };
        proof {
            assert(r@.sessions =~= Map::empty());
            assert(r@.socket_to_session =~= Map::empty());
            assert(r@.socket_room_codes =~= Map::empty());
            assert(r@.file_owners =~= Map::empty());
            lemma_initial_state();
        }
        r
    }
}

/// Whether the grace period of a session has run out at `now`.
pub fn session_expired(session: &Session, now: u64) -> (r: bool)
    ensures
        r == is_expired(session@, now),
{
    match session.disconnect_time {
        Some(t) => now > t && now - t > GRACE_MILLIS,
        None => false,
    }
}

/// Takes out of `files` every record that `socket_id` owns.
fn drop_files_of(files: &mut Table<FileOwner>, socket_id: &str)
    requires
        old(files).wf(),
    ensures
        final(files).wf(),
        forall|f: Seq<char>| #[trigger]
            final(files).map().contains_key(f) <==> (old(files).map().contains_key(f) && old(
                files,
            ).map()[f].owning_socket@ != socket_id@),
        forall|f: Seq<char>| #[trigger]
            final(files).map().contains_key(f) ==> final(files).map()[f] == old(files).map()[f],
{
    let ghost before = *files;
    let mut i: usize = 0;
    while i < files.len()
        invariant
            files.wf(),
            i <= files.keys().len(),
            forall|f: Seq<char>| #[trigger]
                files.map().contains_key(f) ==> before.map().contains_key(f) && files.map()[f]
                    == before.map()[f],
            forall|f: Seq<char>| #[trigger]
                before.map().contains_key(f) && before.map()[f].owning_socket@ != socket_id@
                    ==> files.map().contains_key(f),
            forall|j: int| 0 <= j < i ==> (#[trigger] files.vals()[j]).owning_socket@ != socket_id@,
        decreases files.keys().len() - i,
    {
        proof {
            files.lemma_at_position(i as int);
        }
        if str_eq(files.value_at(i).owning_socket.as_str(), socket_id) {
            let ghost prev = *files;
            files.remove_at(i);
            assert forall|f: Seq<char>| files.map().contains_key(f) implies before.map().contains_key(
                f,
            ) && files.map()[f] == before.map()[f] by {
                assert(prev.map().contains_key(f));
                assert(files.map()[f] == prev.map()[f]);
            }
            assert forall|f: Seq<char>|
                before.map().contains_key(f) && before.map()[f].owning_socket@
                    != socket_id@ implies files.map().contains_key(f) by {
                assert(prev.map().contains_key(f));
            }
        } else {
            i += 1;
        }
    }
    assert forall|f: Seq<char>| files.map().contains_key(f) implies before.map().contains_key(f)
        && before.map()[f].owning_socket@ != socket_id@ by {
        let j = files.keys().index_of(f);
        files.lemma_at_position(j);
    }
}

impl AppState {
    /// Each table holds a key once, and so does each session its sockets.
    pub closed spec fn tables_wf(&self) -> bool {
        &&& self.sessions.wf()
        &&& self.socket_to_session.wf()
        &&& self.socket_room_codes.wf()
        &&& self.file_owners.wf()
        &&& self.transfers.wf()
        &&& forall|i: int|
            0 <= i < self.sessions.vals().len() ==> (#[trigger] self.sessions.vals()[i]).wf()
    }

    /// The store is in order: each table holds a key once, each session a
    /// socket once, and the tables agree with one another as the invariant
    /// of the model says.
    pub closed spec fn wf(&self) -> bool {
        &&& self.tables_wf()
        &&& self@.inv()
    }

    /// The view of a store that is in order is well formed and meets the
    /// invariant: every attached socket leads to a session that lists it,
    /// every file is owned by an attached socket, and a session has a
    /// disconnect time exactly when it has no socket.
    pub proof fn lemma_view_well_formed(&self)
        requires
            self.wf(),
        ensures
            self@.well_formed(),
            self@.inv(),
    {
        self.sessions.lemma_keys_are_domain();
        assert(self@.sessions.dom() =~= self.sessions.map().dom());
        assert forall|k: Seq<char>| #[trigger]
            self@.sessions.contains_key(k) implies self@.sessions[k].active_sockets.finite() by {
            let i = self.sessions.keys().index_of(k);
            self.sessions.lemma_at_position(i);
            self.sessions.vals()[i].active_sockets.lemma_len();
        }
    }

    /// Attaches `socket_id` to the session under `session_key`, with the
    /// room code that it was admitted with. A session that is there and not
    /// expired is taken up again with the profile it has; otherwise a session
    /// with the profile `fresh` takes its place. Returns whether the socket
    /// is now the only one of its session.
    pub fn connect(
        &mut self,
        socket_id: &str,
        session_key: String,
        room_code: Option<String>,
        fresh: User,
        now: u64,
    ) -> (first: bool)
        requires
            old(self).wf(),
        ensures
            final(self).wf(),
            final(self)@ == old(self)@.connect(
                socket_id@,
                session_key@,
                opt_view(room_code),
                fresh@,
                now,
            ),
            first == old(self)@.announces_join(socket_id@, session_key@, fresh@, now),
    {
        let ghost pre = *self;
        let ghost joined = pre@.session_after_connect(socket_id@, session_key@, fresh@, now);
        let mut first = true;
        let mut reused = false;
        if let Some(i) = self.sessions.position(session_key.as_str()) {
            proof {
                pre.sessions.lemma_at_position(i as int);
            }
            if !session_expired(self.sessions.value_at(i), now) {
                let s = self.sessions.value_at_mut(i);
                s.disconnect_time = None;
                s.active_sockets.insert(socket_id.to_string());
                first = s.active_sockets.len() == 1;
                proof {
                    s.active_sockets.lemma_len();
                }
                reused = true;
            }
            proof {
                assert(pre@.sessions[session_key@] == pre.sessions.vals()[i as int]@);
                if reused {
                    self.sessions.lemma_changed_at(pre.sessions, i as int);
                    assert(self.sessions.vals()[i as int]@ == joined);
                }
            }
        }
        assert(reused == pre@.reusable(session_key@, now));
        if !reused {
            let mut sockets = StrSet::new();
            assert(sockets@ =~= Set::empty());
            sockets.insert(socket_id.to_string());
            proof {
                sockets.lemma_len();
            }
            let session = Session { user: fresh, disconnect_time: None, active_sockets: sockets };
            assert(session@ == joined);
            self.sessions.insert(session_key.clone(), session);
        }
        assert(self.sessions.wf());
        assert forall|j: int| 0 <= j < self.sessions.vals().len() implies (
        #[trigger] self.sessions.vals()[j]).wf() by {
            if j < pre.sessions.vals().len() {
                assert(pre.sessions.vals()[j].wf());
            }
        }
        assert(self.sessions.map().contains_key(session_key@));
        assert(self.sessions.map()[session_key@]@ == joined);
        assert(self.sessions.map() =~= pre.sessions.map().insert(
            session_key@,
            self.sessions.map()[session_key@],
        ));
        self.socket_to_session.insert(socket_id.to_string(), session_key);
        self.socket_room_codes.insert(socket_id.to_string(), room_code);
        proof {
            let post = pre@.connect(socket_id@, session_key@, opt_view(room_code), fresh@, now);
            assert(self@.sessions =~= post.sessions);
            assert(self@.socket_to_session =~= post.socket_to_session);
            assert(self@.socket_room_codes =~= post.socket_room_codes);
            pre.lemma_view_well_formed();
            lemma_connect_keeps_inv(
                pre@,
                socket_id@,
                session_key@,
                opt_view(room_code),
                fresh@,
                now,
            );
        }
        first
    }

    /// Detaches `socket_id`: it leads to no session any more, the files
    /// that it announced are forgotten, and so is its room code. A session
    /// that it leaves without a socket is stamped with `now`; the identifier
    /// of that session's user is returned, for the peers to be told.
    pub fn disconnect(&mut self, socket_id: &str, now: u64) -> (left: Option<String>)
        requires
            old(self).wf(),
        ensures
            final(self).wf(),
            final(self)@ == old(self)@.disconnect(socket_id@, now),
            opt_view(left) == old(self)@.leaver(socket_id@),
    {
        let ghost pre = *self;
        let mut left: Option<String> = None;
        let key = self.socket_to_session.remove(socket_id);
        if let Some(key) = key {
            assert(pre@.socket_to_session[socket_id@] == key@);
            if let Some(i) = self.sessions.position(key.as_str()) {
                proof {
                    pre.sessions.lemma_at_position(i as int);
                    assert(pre@.sessions[key@] == pre.sessions.vals()[i as int]@);
                }
                let s = self.sessions.value_at_mut(i);
                s.active_sockets.remove(socket_id);
                if s.active_sockets.is_empty() {
                    s.disconnect_time = Some(now);
                    left = Some(s.user.id.clone());
                }
                proof {
                    self.sessions.lemma_changed_at(pre.sessions, i as int);
                    assert(self.sessions.vals()[i as int]@ == pre@.session_after_disconnect(
                        socket_id@,
                        now,
                    ));
                }
            }
        }
        assert forall|j: int| 0 <= j < self.sessions.vals().len() implies (
        #[trigger] self.sessions.vals()[j]).wf() by {
            assert(pre.sessions.vals()[j].wf());
        }
        drop_files_of(&mut self.file_owners, socket_id);
        self.socket_room_codes.remove(socket_id);
        proof {
            let post = pre@.disconnect(socket_id@, now);
            assert(self@.sessions =~= post.sessions);
            assert(self@.socket_to_session =~= post.socket_to_session);
            assert(self@.socket_room_codes =~= post.socket_room_codes);
            assert(self@.file_owners =~= post.file_owners);
            pre.lemma_view_well_formed();
            lemma_disconnect_keeps_inv(pre@, socket_id@, now);
        }
        left
    }

    /// Whether a connect that offers `offered` as its room code is let in.
    pub fn admits(&self, offered: &Option<String>) -> (r: bool)
        ensures
            r == self@.admits(opt_view(*offered)),
    {
        if !self.room_code_enabled {
            return true;
        }
        match &self.room_code {
            None => true,
            Some(expected) => match offered {
                Some(code) => str_eq(code.as_str(), expected.as_str()),
                None => false,
            },
        }
    }

    /// Whether a connect under `key` at `now` takes up a session that is there.
    pub fn resumes(&self, key: &str, now: u64) -> (r: bool)
        requires
            self.wf(),
        ensures
            r == self@.reusable(key@, now),
    {
        match self.sessions.get(key) {
            Some(session) => !session_expired(session, now),
            None => false,
        }
    }

    /// The key of the session that `socket_id` is attached to.
    pub fn session_key_of(&self, socket_id: &str) -> (r: Option<String>)
        requires
            self.wf(),
        ensures
            opt_view(r) == self@.session_key_of(socket_id@),
    {
        match self.socket_to_session.get(socket_id) {
            Some(key) => {
                if self.sessions.contains_key(key.as_str()) {
                    Some(key.clone())
                } else {
                    None
                }
            },
            None => None,
        }
    }

    /// The profile of the user behind `socket_id`.
    pub fn sender_of(&self, socket_id: &str) -> (r: Option<User>)
        requires
            self.wf(),
        ensures
            match r {
                Some(user) => self@.sender_of(socket_id@) == Some(user@),
                None => self@.sender_of(socket_id@) is None,
            },
    {
        match self.socket_to_session.get(socket_id) {
            Some(key) => match self.sessions.get(key.as_str()) {
                Some(session) => Some(session.user.clone()),
                None => None,
            },
            None => None,
        }
    }

    /// Whether a live session other than `key` bears the display name `name`.
    pub fn name_taken(&self, key: &str, name: &str) -> (r: bool)
        requires
            self.wf(),
        ensures
            r == self@.name_taken(key@, name@),
    {
        let mut i: usize = 0;
        while i < self.sessions.len()
            invariant
                self.wf(),
                i <= self.sessions.keys().len(),
                forall|j: int|
                    0 <= j < i ==> !(self.sessions.keys()[j] != key@ && is_live(
                        (#[trigger] self.sessions.vals()[j])@,
                    ) && self.sessions.vals()[j].user.name@ == name@),
            decreases self.sessions.keys().len() - i,
        {
            let session = self.sessions.value_at(i);
            if !str_eq(self.sessions.key_at(i).as_str(), key) && session.disconnect_time.is_none()
                && str_eq(session.user.name.as_str(), name) {
                proof {
                    self.sessions.lemma_at_position(i as int);
                    let k = self.sessions.keys()[i as int];
                    assert(self@.sessions.contains_key(k));
                    assert(self@.sessions[k] == self.sessions.vals()[i as int]@);
                }
                return true;
            }
            i += 1;
        }
        proof {
            if self@.name_taken(key@, name@) {
                let k = choose|k: Seq<char>|
                    k != key@ && #[trigger] self@.sessions.contains_key(k) && is_live(
                        self@.sessions[k],
                    ) && self@.sessions[k].user.name == name@;
                let j = self.sessions.keys().index_of(k);
                self.sessions.lemma_at_position(j);
                assert(self@.sessions[k] == self.sessions.vals()[j]@);
            }
        }
        false
    }

    /// Gives the session under `key` the display name `name`. Returns
    /// whether there is such a session; without one nothing changes.
    pub fn rename(&mut self, key: &str, name: String) -> (found: bool)
        requires
            old(self).wf(),
        ensures
            final(self).wf(),
            found == old(self)@.sessions.contains_key(key@),
            final(self)@ == if found {
                old(self)@.rename(key@, name@)
            } else {
                old(self)@
            },
    {
        let ghost pre = *self;
        match self.sessions.position(key) {
            Some(i) => {
                proof {
                    pre.sessions.lemma_at_position(i as int);
                    assert(pre@.sessions[key@] == pre.sessions.vals()[i as int]@);
                }
                let s = self.sessions.value_at_mut(i);
                s.user.name = name;
                proof {
                    self.sessions.lemma_changed_at(pre.sessions, i as int);
                    assert forall|j: int| 0 <= j < self.sessions.vals().len() implies (
                    #[trigger] self.sessions.vals()[j]).wf() by {
                        assert(pre.sessions.vals()[j].wf());
                    }
                    assert(self@.sessions =~= pre@.rename(key@, name@).sessions);
                    pre.lemma_view_well_formed();
                    lemma_rename_keeps_inv(pre@, key@, name@);
                }
                true
            },
            None => false,
        }
    }

    /// Records `owner` for the file `file_id`, in place of any earlier
    /// record. Only an attached socket can own a file: for any other
    /// nothing is recorded. Returns whether the record was made.
    pub fn announce(&mut self, file_id: String, owner: FileOwner) -> (recorded: bool)
        requires
            old(self).wf(),
        ensures
            final(self).wf(),
            recorded == old(self)@.socket_to_session.contains_key(owner.owning_socket@),
            final(self)@ == if recorded {
                old(self)@.announce(file_id@, owner@)
            } else {
                old(self)@
            },
    {
        let ghost pre = *self;
        if !self.socket_to_session.contains_key(owner.owning_socket.as_str()) {
            return false;
        }
        self.file_owners.insert(file_id, owner);
        proof {
            assert(self@.file_owners =~= pre@.announce(file_id@, owner@).file_owners);
            pre.lemma_view_well_formed();
            lemma_announce_keeps_inv(pre@, file_id@, owner@);
        }
        true
    }

    /// The record of the file `file_id`.
    pub fn file_owner(&self, file_id: &str) -> (r: Option<FileOwner>)
        requires
            self.wf(),
        ensures
            match r {
                Some(owner) => self@.file_owners.contains_key(file_id@) && owner@
                    == self@.file_owners[file_id@],
                None => !self@.file_owners.contains_key(file_id@),
            },
    {
        match self.file_owners.get(file_id) {
            Some(owner) => Some(owner.clone()),
            None => None,
        }
    }

    /// Stores the send end of a transfer under its identifier.
    pub fn open_transfer(&mut self, transfer_id: String, sender: ChunkSender)
        requires
            old(self).wf(),
        ensures
            final(self).wf(),
            final(self)@ == old(self)@.open_transfer(transfer_id@, sender),
    {
        self.transfers.insert(transfer_id, sender);
    }

    /// Hands out the send end of the transfer `transfer_id` and removes it
    /// from the table, so that no second upload can claim it.
    pub fn take_transfer(&mut self, transfer_id: &str) -> (sender: Option<ChunkSender>)
        requires
            old(self).wf(),
        ensures
            final(self).wf(),
            final(self)@ == old(self)@.take_transfer(transfer_id@),
            sender == if old(self)@.transfers.contains_key(transfer_id@) {
                Some(old(self)@.transfers[transfer_id@])
            } else {
                None
            },
    {
        self.transfers.remove(transfer_id)
    }

    /// The session under `key`.
    pub fn session(&self, key: &str) -> (r: Option<&Session>)
        requires
            self.wf(),
        ensures
            match r {
                Some(session) => self@.sessions.contains_key(key@) && session@
                    == self@.sessions[key@] && session.wf(),
                None => !self@.sessions.contains_key(key@),
            },
    {
        match self.sessions.position(key) {
            Some(i) => {
                proof {
                    self.sessions.lemma_at_position(i as int);
                }
                Some(self.sessions.value_at(i))
            },
            None => None,
        }
    }

    /// Whether `socket_id` is attached.
    pub fn is_attached(&self, socket_id: &str) -> (r: bool)
        ensures
            r == self@.socket_to_session.contains_key(socket_id@),
    {
        self.socket_to_session.contains_key(socket_id)
    }

    /// The room code that `socket_id` was admitted with: nothing for a
    /// socket that is not attached, and no code for one that offered none.
    pub fn room_code_of(&self, socket_id: &str) -> (r: Option<Option<String>>)
        requires
            self.wf(),
        ensures
            match r {
                Some(code) => self@.socket_room_codes.contains_key(socket_id@) && opt_view(code)
                    == self@.socket_room_codes[socket_id@],
                None => !self@.socket_room_codes.contains_key(socket_id@),
            },
    {
        match self.socket_room_codes.get(socket_id) {
            Some(code) => Some(code.clone()),
            None => None,
        }
    }

    /// Whether a transfer waits under `transfer_id`.
    pub fn has_transfer(&self, transfer_id: &str) -> (r: bool)
        ensures
            r == self@.transfers.contains_key(transfer_id@),
    {
        self.transfers.contains_key(transfer_id)
    }

    /// The profiles of the live sessions, oldest session first.
    pub fn active_users(&self) -> (users: Vec<User>)
        requires
            self.wf(),
        ensures
            user_views(users@) == self@.live_users(),
    {
        let mut users: Vec<User> = Vec::new();
        let mut i: usize = 0;
        proof {
            lemma_live_users_step(Seq::empty(), Seq::empty(), self@.sessions);
            assert(self.sessions.keys().take(0) =~= Seq::empty());
            assert(user_views(users@) =~= Seq::empty());
        }
        while i < self.sessions.len()
            invariant
                self.wf(),
                i <= self.sessions.keys().len(),
                user_views(users@) == live_users_in(
                    self.sessions.keys().take(i as int),
                    self@.sessions,
                ),
            decreases self.sessions.keys().len() - i,
        {
            let session = self.sessions.value_at(i);
            proof {
                let k = self.sessions.keys()[i as int];
                self.sessions.lemma_at_position(i as int);
                assert(self@.sessions[k] == session@);
                lemma_live_users_step(self.sessions.keys().take(i as int), k, self@.sessions);
                assert(self.sessions.keys().take(i as int).push(k) =~= self.sessions.keys().take(
                    i + 1,
                ));
            }
            if session.disconnect_time.is_none() {
                let ghost before = users@;
                users.push(session.user.clone());
                assert(user_views(users@) =~= user_views(before).push(session.user@));
            }
            i += 1;
        }
        assert(self.sessions.keys().take(i as int) =~= self.sessions.keys());
        users
    }

    pub fn server_url(&self) -> (r: &String)
        ensures
            r@ == self@.server_url,
    {
        &self.server_url
    }

    pub fn set_server_url(&mut self, url: String)
        requires
            old(self).wf(),
        ensures
            final(self).wf(),
            final(self)@ == (AppStateView { server_url: url@, ..old(self)@ }),
    {
        self.server_url = url;
    }

    pub fn room_code_enabled(&self) -> (r: bool)
        ensures
            r == self@.room_code_enabled,
    {
        self.room_code_enabled
    }

    pub fn set_room_code_enabled(&mut self, enabled: bool)
        requires
            old(self).wf(),
        ensures
            final(self).wf(),
            final(self)@ == (AppStateView { room_code_enabled: enabled, ..old(self)@ }),
    {
        self.room_code_enabled = enabled;
    }

    pub fn room_code(&self) -> (r: &Option<String>)
        ensures
            opt_view(*r) == self@.room_code,
    {
        &self.room_code
    }

    pub fn set_room_code(&mut self, code: Option<String>)
        requires
            old(self).wf(),
        ensures
            final(self).wf(),
            final(self)@ == (AppStateView { room_code: opt_view(code), ..old(self)@ }),
    {
        self.room_code = code;
    }

    pub fn discovery(&self) -> (r: &DiscoveryService)
        ensures
            r.enabled() == self@.discovery_enabled,
            r.running() == self@.discovery_running,
    {
        &self.discovery
    }

    /// Switches the discovery responder's answers on or off.
    pub fn set_discovery_enabled(&mut self, enabled: bool)
        requires
            old(self).wf(),
        ensures
            final(self).wf(),
            final(self)@ == (AppStateView { discovery_enabled: enabled, ..old(self)@ }),
    {
        self.discovery.set_enabled(enabled);
    }

    /// Marks the discovery responder as running; true if its task is to be spawned.
    pub fn start_discovery(&mut self) -> (spawn: bool)
        requires
            old(self).wf(),
        ensures
            final(self).wf(),
            spawn == !old(self)@.discovery_running,
            final(self)@ == (AppStateView { discovery_running: true, ..old(self)@ }),
    {
        self.discovery.start()
    }

    /// Marks the discovery responder as stopped; true if its task is to be aborted.
    pub fn stop_discovery(&mut self) -> (abort: bool)
        requires
            old(self).wf(),
        ensures
            final(self).wf(),
            abort == old(self)@.discovery_running,
            final(self)@ == (AppStateView { discovery_running: false, ..old(self)@ }),
    {
        self.discovery.stop()
    }
}

} // verus!
