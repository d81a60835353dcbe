//! The relay's state as mathematics: what each event does to it, what holds
//! of every state that events can reach, and the proofs of that.

use vstd::prelude::*;
use crate::state::{FileOwnerView, SessionView, UserView, GRACE_MILLIS};
use crate::text::trimmed;
use crate::transfer::ChunkSender;

verus! {

/// A session counts as live while no disconnect time is set on it.
pub open spec fn is_live(s: SessionView) -> bool {
    s.disconnect_time is None
}

/// A session is expired at `now` when its last socket left more than the
/// grace period before.
pub open spec fn is_expired(s: SessionView, now: u64) -> bool {
    s.disconnect_time matches Some(t) && now - t > GRACE_MILLIS
}

/// The profiles of the live sessions among `order`, in that order.
pub open spec fn live_users_in(
    order: Seq<Seq<char>>,
    sessions: Map<Seq<char>, SessionView>,
) -> Seq<UserView> {
    order.filter(|k: Seq<char>| is_live(sessions[k])).map_values(|k: Seq<char>| sessions[k].user)
}

/// `live_users_in` walks its keys from the first to the last.
pub proof fn lemma_live_users_step(
    order: Seq<Seq<char>>,
    k: Seq<char>,
    sessions: Map<Seq<char>, SessionView>,
)
    ensures
        live_users_in(Seq::empty(), sessions) == Seq::<UserView>::empty(),
        live_users_in(order.push(k), sessions) == if is_live(sessions[k]) {
            live_users_in(order, sessions).push(sessions[k].user)
        } else {
            live_users_in(order, sessions)
        },
{
    let live = |k: Seq<char>| is_live(sessions[k]);
    let user = |k: Seq<char>| sessions[k].user;
    reveal(Seq::filter);
    assert(Seq::<Seq<char>>::empty().filter(live).map_values(user) =~= Seq::<UserView>::empty());
    order.lemma_filter_push(k, live);
    if is_live(sessions[k]) {
        assert(order.filter(live).push(k).map_values(user) =~= order.filter(live).map_values(
            user,
        ).push(sessions[k].user));
    }
}

/// The state store, seen as maps and sets.
pub struct AppStateView {
    pub sessions: Map<Seq<char>, SessionView>,
    /// The session keys in the order in which they first appeared.
    pub session_order: Seq<Seq<char>>,
    pub socket_to_session: Map<Seq<char>, Seq<char>>,
    pub socket_room_codes: Map<Seq<char>, Option<Seq<char>>>,
    pub file_owners: Map<Seq<char>, FileOwnerView>,
    pub transfers: Map<Seq<char>, ChunkSender>,
    pub server_url: Seq<char>,
    pub discovery_enabled: bool,
    pub discovery_running: bool,
    pub room_code_enabled: bool,
    pub room_code: Option<Seq<char>>,
}

impl AppStateView {
    /// The store right after start: no entry in any table, discovery switched
    /// on and not running, admission open.
    pub open spec fn initial() -> AppStateView {
        AppStateView {
            sessions: Map::empty(),
            session_order: Seq::empty(),
            socket_to_session: Map::empty(),
            socket_room_codes: Map::empty(),
            file_owners: Map::empty(),
            transfers: Map::empty(),
            server_url: Seq::empty(),
            discovery_enabled: true,
            discovery_running: false,
            room_code_enabled: false,
            room_code: None,
        }
    }

    /// The tables are finite and `session_order` lists the session keys once each.
    pub open spec fn well_formed(self) -> bool {
        &&& self.session_order.no_duplicates()
        &&& self.session_order.to_set() == self.sessions.dom()
        &&& forall|k: Seq<char>| #[trigger]
            self.sessions.contains_key(k) ==> self.sessions[k].active_sockets.finite()
    }

    /// Every attached socket leads to a session that exists and that lists the socket.
    pub open spec fn sockets_resolve(self) -> bool {
        forall|sock: Seq<char>| #[trigger]
            self.socket_to_session.contains_key(sock) ==> {
                &&& self.sessions.contains_key(self.socket_to_session[sock])
                &&& self.sessions[self.socket_to_session[sock]].active_sockets.contains(sock)
            }
    }

    /// Every file is owned by an attached socket.
    pub open spec fn owners_attached(self) -> bool {
        forall|f: Seq<char>| #[trigger]
            self.file_owners.contains_key(f) ==> self.socket_to_session.contains_key(
                self.file_owners[f].owning_socket,
            )
    }

    /// A session has a disconnect time exactly when no socket is attached to it.
    pub open spec fn presence_consistent(self) -> bool {
        forall|k: Seq<char>| #[trigger]
            self.sessions.contains_key(k) ==> (is_live(self.sessions[k])
                <==> !self.sessions[k].active_sockets.is_empty())
    }

    /// A room code is kept for the attached sockets and for no other.
    pub open spec fn room_codes_follow(self) -> bool {
        self.socket_room_codes.dom() == self.socket_to_session.dom()
    }

    /// What holds of every state that the events below can reach.
    pub open spec fn inv(self) -> bool {
        &&& self.sockets_resolve()
        &&& self.owners_attached()
        &&& self.presence_consistent()
        &&& self.room_codes_follow()
    }

    /// A socket listed by a session is attached to that session.
    pub open spec fn attachments_exact(self) -> bool {
        forall|k: Seq<char>, sock: Seq<char>|
            self.sessions.contains_key(k) && #[trigger] self.sessions[k].active_sockets.contains(
                sock,
            ) ==> self.socket_to_session.contains_key(sock) && self.socket_to_session[sock] == k
    }

    /// No two live sessions bear the same display name.
    pub open spec fn names_unique(self) -> bool {
        forall|a: Seq<char>, b: Seq<char>|
            #![trigger self.sessions[a], self.sessions[b]]
            self.sessions.contains_key(a) && self.sessions.contains_key(b) && a != b && is_live(
                self.sessions[a],
            ) && is_live(self.sessions[b]) ==> self.sessions[a].user.name
                != self.sessions[b].user.name
    }

    /// The profiles of the live sessions, oldest session first.
    pub open spec fn live_users(self) -> Seq<UserView> {
        live_users_in(self.session_order, self.sessions)
    }

    /// Whether a connect that offers `offered` as its room code is let in:
    /// with admission enabled and a code set, only the same code will do.
    pub open spec fn admits(self, offered: Option<Seq<char>>) -> bool {
        self.room_code_enabled && self.room_code is Some ==> offered == self.room_code
    }

    /// Whether a connect under `key` at `now` takes up a session that is there.
    pub open spec fn reusable(self, key: Seq<char>, now: u64) -> bool {
        self.sessions.contains_key(key) && !is_expired(self.sessions[key], now)
    }

    /// The session under `key` once `socket` has connected under it.
    pub open spec fn session_after_connect(
        self,
        socket: Seq<char>,
        key: Seq<char>,
        fresh: UserView,
        now: u64,
    ) -> SessionView {
        if self.reusable(key, now) {
            SessionView {
                user: self.sessions[key].user,
                disconnect_time: None,
                active_sockets: self.sessions[key].active_sockets.insert(socket),
            }
        } else {
            SessionView {
                user: fresh,
                disconnect_time: None,
                active_sockets: Set::empty().insert(socket),
            }
        }
    }

    /// The state after `socket` has connected under the session key `key`
    /// with the room code `offered`. `fresh` is the profile that a new
    /// session gets.
    pub open spec fn connect(
        self,
        socket: Seq<char>,
        key: Seq<char>,
        offered: Option<Seq<char>>,
        fresh: UserView,
        now: u64,
    ) -> AppStateView {
        AppStateView {
            sessions: self.sessions.insert(
                key,
                self.session_after_connect(socket, key, fresh, now),
            ),
            session_order: if self.sessions.contains_key(key) {
                self.session_order
            } else {
                self.session_order.push(key)
            },
            socket_to_session: self.socket_to_session.insert(socket, key),
            socket_room_codes: self.socket_room_codes.insert(socket, offered),
            ..self
        }
    }

    /// Whether peers are told of a join: only when the socket is the first
    /// of its session.
    pub open spec fn announces_join(
        self,
        socket: Seq<char>,
        key: Seq<char>,
        fresh: UserView,
        now: u64,
    ) -> bool {
        self.session_after_connect(socket, key, fresh, now).active_sockets.len() == 1
    }

    /// The session that `socket` is attached to, if it is attached and the
    /// session exists.
    pub open spec fn session_key_of(self, socket: Seq<char>) -> Option<Seq<char>> {
        if self.socket_to_session.contains_key(socket) && self.sessions.contains_key(
            self.socket_to_session[socket],
        ) {
            Some(self.socket_to_session[socket])
        } else {
            None
        }
    }

    /// The profile behind `socket`.
    pub open spec fn sender_of(self, socket: Seq<char>) -> Option<UserView> {
        match self.session_key_of(socket) {
            Some(key) => Some(self.sessions[key].user),
            None => None,
        }
    }

    /// The files announced by `socket`.
    pub open spec fn files_of(self, socket: Seq<char>) -> Set<Seq<char>> {
        Set::new(
            |f: Seq<char>|
                self.file_owners.contains_key(f) && self.file_owners[f].owning_socket == socket,
        )
    }

    /// The session of `socket` once the socket has left it.
    pub open spec fn session_after_disconnect(self, socket: Seq<char>, now: u64) -> SessionView {
        let s = self.sessions[self.socket_to_session[socket]];
        let rest = s.active_sockets.remove(socket);
        SessionView {
            user: s.user,
            disconnect_time: if rest.is_empty() {
                Some(now)
            } else {
                s.disconnect_time
            },
            active_sockets: rest,
        }
    }

    /// The state after `socket` has gone: it is attached to nothing, its
    /// files are forgotten, and a session that it leaves empty is stamped
    /// with `now`.
    pub open spec fn disconnect(self, socket: Seq<char>, now: u64) -> AppStateView {
        AppStateView {
            sessions: match self.session_key_of(socket) {
                Some(key) => self.sessions.insert(key, self.session_after_disconnect(socket, now)),
                None => self.sessions,
            },
            socket_to_session: self.socket_to_session.remove(socket),
            socket_room_codes: self.socket_room_codes.remove(socket),
            file_owners: self.file_owners.remove_keys(self.files_of(socket)),
            ..self
        }
    }

    /// The user whose leaving is told to the peers when `socket` goes: the
    /// one whose session it leaves empty.
    pub open spec fn leaver(self, socket: Seq<char>) -> Option<Seq<char>> {
        match self.session_key_of(socket) {
            Some(key) => if self.sessions[key].active_sockets.remove(socket).is_empty() {
                Some(self.sessions[key].user.id)
            } else {
                None
            },
            None => None,
        }
    }

    /// Whether a live session other than `key` bears `name`.
    pub open spec fn name_taken(self, key: Seq<char>, name: Seq<char>) -> bool {
        exists|k: Seq<char>|
            k != key && #[trigger] self.sessions.contains_key(k) && is_live(self.sessions[k])
                && self.sessions[k].user.name == name
    }

    /// The name that the session `key` gets when it asks for `requested`:
    /// the request without the white space round it, and with a `1` behind
    /// it where another live session bears that name.
    pub open spec fn granted_name(self, key: Seq<char>, requested: Seq<char>) -> Seq<char> {
        let wanted = trimmed(requested);
        if self.name_taken(key, wanted) {
            wanted.push('1')
        } else {
            wanted
        }
    }

    /// The state after the session `key` has taken the display name `name`.
    pub open spec fn rename(self, key: Seq<char>, name: Seq<char>) -> AppStateView {
        let s = self.sessions[key];
        AppStateView {
            sessions: self.sessions.insert(
                key,
                SessionView { user: UserView { name, ..s.user }, ..s },
            ),
            ..self
        }
    }

    /// The state after `owner` has been recorded for the file `file_id`.
    pub open spec fn announce(self, file_id: Seq<char>, owner: FileOwnerView) -> AppStateView {
        AppStateView { file_owners: self.file_owners.insert(file_id, owner), ..self }
    }

    /// The state after a transfer has been allocated.
    pub open spec fn open_transfer(self, transfer_id: Seq<char>, sender: ChunkSender) -> AppStateView {
        AppStateView { transfers: self.transfers.insert(transfer_id, sender), ..self }
    }

    /// The state after an upload has claimed the transfer `transfer_id`.
    pub open spec fn take_transfer(self, transfer_id: Seq<char>) -> AppStateView {
        AppStateView { transfers: self.transfers.remove(transfer_id), ..self }
    }
}

/// A display name is acceptable when, without the white space round it, it
/// has between 1 and 24 characters.
pub open spec fn name_acceptable(requested: Seq<char>) -> bool {
    0 < trimmed(requested).len() <= 24
}

/// A name that has more than 24 characters between the white space round
/// it is not acceptable, and neither is one that has none.
pub proof fn lemma_name_length(requested: Seq<char>)
    ensures
        trimmed(requested).len() > 24 ==> !name_acceptable(requested),
        trimmed(requested).len() == 0 ==> !name_acceptable(requested),
        1 <= trimmed(requested).len() <= 24 ==> name_acceptable(requested),
{
}

/// A session that asks for a name that another live session bears gets the
/// name with a `1` behind it, and that is the name that the list of live
/// users shows for it from then on.
pub proof fn lemma_collision_gets_suffix(pre: AppStateView, key: Seq<char>, requested: Seq<char>)
    requires
        pre.sessions.contains_key(key),
        pre.name_taken(key, trimmed(requested)),
    ensures
        pre.granted_name(key, requested) == trimmed(requested).push('1'),
        pre.rename(key, pre.granted_name(key, requested)).sessions[key].user.name == trimmed(
            requested,
        ).push('1'),
        pre.rename(key, pre.granted_name(key, requested)).sessions[key].user.id
            == pre.sessions[key].user.id,
{
}

/// The empty store is well formed and meets the invariant, and no two of
/// its sessions share a name.
pub proof fn lemma_initial_state()
    ensures
        AppStateView::initial().well_formed(),
        AppStateView::initial().inv(),
        AppStateView::initial().attachments_exact(),
        AppStateView::initial().names_unique(),
{
    let s = AppStateView::initial();
    assert(s.session_order.to_set() =~= s.sessions.dom());
    assert(s.socket_room_codes.dom() =~= s.socket_to_session.dom());
}

/// A connect keeps the store well formed and keeps the invariant: every
/// attached socket still leads to a session that lists it, every file is
/// still owned by an attached socket, and a session has a disconnect time
/// exactly when it has no socket.
pub proof fn lemma_connect_keeps_inv(
    pre: AppStateView,
    socket: Seq<char>,
    key: Seq<char>,
    offered: Option<Seq<char>>,
    fresh: UserView,
    now: u64,
)
    requires
        pre.well_formed(),
        pre.inv(),
    ensures
        pre.connect(socket, key, offered, fresh, now).well_formed(),
        pre.connect(socket, key, offered, fresh, now).inv(),
{
    let post = pre.connect(socket, key, offered, fresh, now);
    let joined = pre.session_after_connect(socket, key, fresh, now);
    assert(joined.active_sockets.contains(socket));
    assert(!joined.active_sockets.is_empty());
    assert(joined.active_sockets.finite());
    if pre.sessions.contains_key(key) {
        assert(post.session_order.to_set() =~= post.sessions.dom());
    } else {
        assert(!pre.session_order.to_set().contains(key));
        assert(!pre.session_order.contains(key));
        assert forall|i: int, j: int|
            0 <= i < post.session_order.len() && 0 <= j < post.session_order.len() && i
                != j implies post.session_order[i] != post.session_order[j] by {
            if i < pre.session_order.len() {
                assert(pre.session_order.contains(post.session_order[i]));
            }
            if j < pre.session_order.len() {
                assert(pre.session_order.contains(post.session_order[j]));
            }
        }
        assert forall|k: Seq<char>| post.session_order.to_set().contains(k)
            <==> post.sessions.dom().contains(k) by {
            if pre.session_order.contains(k) {
                let i = pre.session_order.index_of(k);
                assert(post.session_order[i] == k);
            }
            if k == key {
                assert(post.session_order[pre.session_order.len() as int] == key);
            }
            if post.session_order.contains(k) {
                let i = post.session_order.index_of(k);
                if i < pre.session_order.len() {
                    assert(pre.session_order.contains(k));
                    assert(pre.session_order.to_set().contains(k));
                }
            }
        }
        assert(post.session_order.to_set() =~= post.sessions.dom());
    }
    assert forall|sock: Seq<char>| #[trigger]
        post.socket_to_session.contains_key(sock) implies post.sessions.contains_key(
        post.socket_to_session[sock],
    ) && post.sessions[post.socket_to_session[sock]].active_sockets.contains(sock) by {
        if sock != socket {
            assert(pre.socket_to_session.contains_key(sock));
            let k = pre.socket_to_session[sock];
            if k == key {
                assert(!pre.sessions[key].active_sockets.is_empty());
                assert(is_live(pre.sessions[key]));
            }
        }
    }
    assert forall|f: Seq<char>| #[trigger]
        post.file_owners.contains_key(f) implies post.socket_to_session.contains_key(
        post.file_owners[f].owning_socket,
    ) by {
        assert(pre.file_owners.contains_key(f));
    }
    assert forall|k: Seq<char>| #[trigger] post.sessions.contains_key(k) implies (is_live(
        post.sessions[k],
    ) <==> !post.sessions[k].active_sockets.is_empty()) by {
        if k != key {
            assert(pre.sessions.contains_key(k));
        }
    }
    assert(post.socket_room_codes.dom() =~= post.socket_to_session.dom());
}

/// A disconnect keeps the store well formed and keeps the invariant.
pub proof fn lemma_disconnect_keeps_inv(pre: AppStateView, socket: Seq<char>, now: u64)
    requires
        pre.well_formed(),
        pre.inv(),
    ensures
        pre.disconnect(socket, now).well_formed(),
        pre.disconnect(socket, now).inv(),
{
    let post = pre.disconnect(socket, now);
    assert(post.sessions.dom() =~= pre.sessions.dom());
    assert forall|k: Seq<char>| #[trigger]
        post.sessions.contains_key(k) implies post.sessions[k].active_sockets.finite() by {
        assert(pre.sessions.contains_key(k));
    }
    assert forall|sock: Seq<char>| #[trigger]
        post.socket_to_session.contains_key(sock) implies post.sessions.contains_key(
        post.socket_to_session[sock],
    ) && post.sessions[post.socket_to_session[sock]].active_sockets.contains(sock) by {
        assert(pre.socket_to_session.contains_key(sock));
    }
    assert forall|f: Seq<char>| #[trigger]
        post.file_owners.contains_key(f) implies post.socket_to_session.contains_key(
        post.file_owners[f].owning_socket,
    ) by {
        assert(pre.file_owners.contains_key(f));
        assert(!pre.files_of(socket).contains(f));
    }
    assert forall|k: Seq<char>| #[trigger] post.sessions.contains_key(k) implies (is_live(
        post.sessions[k],
    ) <==> !post.sessions[k].active_sockets.is_empty()) by {
        assert(pre.sessions.contains_key(k));
    }
    assert(post.socket_room_codes.dom() =~= post.socket_to_session.dom());
}

/// A new display name for a session that exists keeps the store well
/// formed and keeps the invariant.
pub proof fn lemma_rename_keeps_inv(pre: AppStateView, key: Seq<char>, name: Seq<char>)
    requires
        pre.well_formed(),
        pre.inv(),
        pre.sessions.contains_key(key),
    ensures
        pre.rename(key, name).well_formed(),
        pre.rename(key, name).inv(),
{
    let post = pre.rename(key, name);
    assert(post.sessions.dom() =~= pre.sessions.dom());
    assert forall|k: Seq<char>| #[trigger]
        post.sessions.contains_key(k) implies post.sessions[k].active_sockets.finite() by {
        assert(pre.sessions.contains_key(k));
    }
    assert forall|sock: Seq<char>| #[trigger]
        post.socket_to_session.contains_key(sock) implies post.sessions.contains_key(
        post.socket_to_session[sock],
    ) && post.sessions[post.socket_to_session[sock]].active_sockets.contains(sock) by {
        assert(pre.socket_to_session.contains_key(sock));
    }
    assert forall|k: Seq<char>| #[trigger] post.sessions.contains_key(k) implies (is_live(
        post.sessions[k],
    ) <==> !post.sessions[k].active_sockets.is_empty()) by {
        assert(pre.sessions.contains_key(k));
    }
}

/// The record of a file that an attached socket announces keeps the store
/// well formed and keeps the invariant.
pub proof fn lemma_announce_keeps_inv(pre: AppStateView, file_id: Seq<char>, owner: FileOwnerView)
    requires
        pre.well_formed(),
        pre.inv(),
        pre.socket_to_session.contains_key(owner.owning_socket),
    ensures
        pre.announce(file_id, owner).well_formed(),
        pre.announce(file_id, owner).inv(),
{
    let post = pre.announce(file_id, owner);
    assert forall|f: Seq<char>| #[trigger]
        post.file_owners.contains_key(f) implies post.socket_to_session.contains_key(
        post.file_owners[f].owning_socket,
    ) by {
        if f != file_id {
            assert(pre.file_owners.contains_key(f));
        }
    }
}

/// A new transfer and a claimed transfer each keep the store well formed
/// and keep the invariant.
pub proof fn lemma_transfers_keep_inv(pre: AppStateView, transfer_id: Seq<char>, sender: ChunkSender)
    requires
        pre.well_formed(),
        pre.inv(),
    ensures
        pre.open_transfer(transfer_id, sender).well_formed(),
        pre.open_transfer(transfer_id, sender).inv(),
        pre.take_transfer(transfer_id).well_formed(),
        pre.take_transfer(transfer_id).inv(),
{
}

/// Where each socket that a session lists is attached to that session, a
/// connect of a socket that is attached nowhere keeps it so, and so does
/// every disconnect.
pub proof fn lemma_attachments_stay_exact(
    pre: AppStateView,
    socket: Seq<char>,
    key: Seq<char>,
    offered: Option<Seq<char>>,
    fresh: UserView,
    now: u64,
)
    requires
        pre.inv(),
        pre.attachments_exact(),
    ensures
        !pre.socket_to_session.contains_key(socket) ==> pre.connect(
            socket,
            key,
            offered,
            fresh,
            now,
        ).attachments_exact(),
        pre.disconnect(socket, now).attachments_exact(),
{
    if !pre.socket_to_session.contains_key(socket) {
        let post = pre.connect(socket, key, offered, fresh, now);
        assert forall|k: Seq<char>, sock: Seq<char>|
            post.sessions.contains_key(k) && #[trigger] post.sessions[k].active_sockets.contains(
                sock,
            ) implies post.socket_to_session.contains_key(sock) && post.socket_to_session[sock]
            == k by {
            if sock != socket {
                assert(pre.sessions.contains_key(k));
                assert(pre.sessions[k].active_sockets.contains(sock));
            } else if k != key {
                assert(pre.sessions[k].active_sockets.contains(sock));
            }
        }
    }
    let post = pre.disconnect(socket, now);
    assert forall|k: Seq<char>, sock: Seq<char>|
        post.sessions.contains_key(k) && #[trigger] post.sessions[k].active_sockets.contains(
            sock,
        ) implies post.socket_to_session.contains_key(sock) && post.socket_to_session[sock]
        == k by {
        assert(pre.sessions.contains_key(k));
        assert(pre.sessions[k].active_sockets.contains(sock));
    }
}

/// Display names stay unique among the live sessions through a rename,
/// unless the name asked for and the same name with a `1` behind it are both
/// borne by other live sessions.
pub proof fn lemma_rename_keeps_names_unique(
    pre: AppStateView,
    key: Seq<char>,
    requested: Seq<char>,
)
    requires
        pre.names_unique(),
        pre.sessions.contains_key(key),
        !(pre.name_taken(key, trimmed(requested)) && pre.name_taken(
            key,
            trimmed(requested).push('1'),
        )),
    ensures
        pre.rename(key, pre.granted_name(key, requested)).names_unique(),
{
    let name = pre.granted_name(key, requested);
    let post = pre.rename(key, name);
    assert(!pre.name_taken(key, name));
    assert forall|a: Seq<char>, b: Seq<char>|
        #![trigger post.sessions[a], post.sessions[b]]
        post.sessions.contains_key(a) && post.sessions.contains_key(b) && a != b && is_live(
            post.sessions[a],
        ) && is_live(post.sessions[b]) implies post.sessions[a].user.name
        != post.sessions[b].user.name by {
        if a == key {
            assert(pre.sessions.contains_key(b));
        } else if b == key {
            assert(pre.sessions.contains_key(a));
        } else {
            assert(pre.sessions[a].user.name != pre.sessions[b].user.name);
        }
    }
}

/// Display names stay unique among the live sessions through a connect,
/// unless the session that becomes live by it bears a name that another
/// live session bears already. They stay unique through every disconnect.
pub proof fn lemma_presence_keeps_names_unique(
    pre: AppStateView,
    socket: Seq<char>,
    key: Seq<char>,
    offered: Option<Seq<char>>,
    fresh: UserView,
    now: u64,
)
    requires
        pre.names_unique(),
    ensures
        (pre.reusable(key, now) && is_live(pre.sessions[key])) || !pre.name_taken(
            key,
            pre.session_after_connect(socket, key, fresh, now).user.name,
        ) ==> pre.connect(socket, key, offered, fresh, now).names_unique(),
        pre.disconnect(socket, now).names_unique(),
{
    let joined = pre.session_after_connect(socket, key, fresh, now);
    if (pre.reusable(key, now) && is_live(pre.sessions[key])) || !pre.name_taken(
        key,
        joined.user.name,
    ) {
        let post = pre.connect(socket, key, offered, fresh, now);
        assert forall|a: Seq<char>, b: Seq<char>|
            #![trigger post.sessions[a], post.sessions[b]]
            post.sessions.contains_key(a) && post.sessions.contains_key(b) && a != b && is_live(
                post.sessions[a],
            ) && is_live(post.sessions[b]) implies post.sessions[a].user.name
            != post.sessions[b].user.name by {
            if a == key {
                assert(pre.sessions.contains_key(b));
                if pre.reusable(key, now) && is_live(pre.sessions[key]) {
                    assert(pre.sessions[a].user.name != pre.sessions[b].user.name);
                }
            } else if b == key {
                assert(pre.sessions.contains_key(a));
                if pre.reusable(key, now) && is_live(pre.sessions[key]) {
                    assert(pre.sessions[a].user.name != pre.sessions[b].user.name);
                }
            } else {
                assert(pre.sessions[a].user.name != pre.sessions[b].user.name);
            }
        }
    }
    let post = pre.disconnect(socket, now);
    assert forall|a: Seq<char>, b: Seq<char>|
        #![trigger post.sessions[a], post.sessions[b]]
        post.sessions.contains_key(a) && post.sessions.contains_key(b) && a != b && is_live(
            post.sessions[a],
        ) && is_live(post.sessions[b]) implies post.sessions[a].user.name
        != post.sessions[b].user.name by {
        assert(pre.sessions.contains_key(a) && pre.sessions.contains_key(b));
        assert(is_live(pre.sessions[a]) && is_live(pre.sessions[b]));
        assert(pre.sessions[a].user.name != pre.sessions[b].user.name);
    }
}

/// A socket leaves and one comes back under the same session key no later
/// than the grace period after: the profile of the session is the one from
/// before. Peers are told of a join exactly when the session had no socket
/// left; while it kept another one, they are told nothing.
pub proof fn lemma_reconnect_within_grace(
    pre: AppStateView,
    socket: Seq<char>,
    again: Seq<char>,
    key: Seq<char>,
    offered: Option<Seq<char>>,
    fresh: UserView,
    left_at: u64,
    back_at: u64,
)
    requires
        pre.well_formed(),
        pre.inv(),
        pre.session_key_of(socket) == Some(key),
        back_at - left_at <= GRACE_MILLIS,
    ensures
        ({
            let mid = pre.disconnect(socket, left_at);
            let post = mid.connect(again, key, offered, fresh, back_at);
            let kept = pre.sessions[key].active_sockets.remove(socket);
            &&& post.sessions[key].user == pre.sessions[key].user
            &&& kept.is_empty() ==> mid.announces_join(again, key, fresh, back_at)
            &&& !kept.remove(again).is_empty() ==> !mid.announces_join(again, key, fresh, back_at)
        }),
{
    let mid = pre.disconnect(socket, left_at);
    let kept = pre.sessions[key].active_sockets.remove(socket);
    assert(mid.reusable(key, back_at));
    let joined = mid.session_after_connect(again, key, fresh, back_at);
    assert(joined.active_sockets == kept.insert(again));
    assert(kept.finite());
    if kept.is_empty() {
        assert(kept.insert(again).len() == 1);
    }
    if !kept.remove(again).is_empty() {
        let other = choose|o: Seq<char>| kept.remove(again).contains(o);
        assert(kept.remove(again).contains(other)) by {
            if forall|o: Seq<char>| !kept.remove(again).contains(o) {
                assert(kept.remove(again) =~= Set::empty());
            }
        }
        assert(kept.insert(again).remove(again).remove(other).finite());
        assert(kept.insert(again).contains(again) && kept.insert(again).contains(other));
        assert(kept.insert(again).len() == kept.insert(again).remove(again).remove(other).len()
            + 2);
    }
}

/// The last socket of a session leaves and one comes back under the same
/// session key later than the grace period after: the session starts anew
/// with the fresh profile, and peers are told of a join.
pub proof fn lemma_reconnect_after_grace(
    pre: AppStateView,
    socket: Seq<char>,
    again: Seq<char>,
    key: Seq<char>,
    offered: Option<Seq<char>>,
    fresh: UserView,
    left_at: u64,
    back_at: u64,
)
    requires
        pre.well_formed(),
        pre.inv(),
        pre.session_key_of(socket) == Some(key),
        pre.sessions[key].active_sockets.remove(socket).is_empty(),
        back_at - left_at > GRACE_MILLIS,
    ensures
        ({
            let mid = pre.disconnect(socket, left_at);
            let post = mid.connect(again, key, offered, fresh, back_at);
            &&& post.sessions[key].user == fresh
            &&& post.sessions[key].active_sockets == Set::<Seq<char>>::empty().insert(again)
            &&& mid.announces_join(again, key, fresh, back_at)
        }),
{
    let mid = pre.disconnect(socket, left_at);
    assert(is_expired(mid.sessions[key], back_at));
    assert(Set::<Seq<char>>::empty().insert(again).len() == 1);
}

/// A transfer is claimed once: after an upload has taken it, it is gone
/// from the table, so that a second upload finds nothing. The other
/// transfers stay as they are.
pub proof fn lemma_transfer_claimed_once(pre: AppStateView, transfer_id: Seq<char>)
    ensures
        !pre.take_transfer(transfer_id).transfers.contains_key(transfer_id),
        pre.take_transfer(transfer_id).take_transfer(transfer_id) == pre.take_transfer(
            transfer_id,
        ),
        forall|t: Seq<char>|
            t != transfer_id ==> (#[trigger] pre.take_transfer(transfer_id).transfers.contains_key(
                t,
            ) <==> pre.transfers.contains_key(t)),
        forall|t: Seq<char>|
            t != transfer_id && pre.transfers.contains_key(t) ==> #[trigger] pre.take_transfer(
                transfer_id,
            ).transfers[t] == pre.transfers[t],
{
    let once = pre.take_transfer(transfer_id);
    assert(once.transfers.remove(transfer_id) =~= once.transfers);
}

} // verus!
