//! What the message socket decides: admission, sessions, presence, chat and
//! file announcements. Each function takes an event and the state, changes
//! the state and says what is to be sent; sending is the caller's part.

use vstd::prelude::*;
use crate::ids::{fresh_id, fresh_name, is_hyphenated_uuid, is_initial_name};
use crate::json::{
    is_object, json_is_object, json_members, set_text_member, set_u64_member, text_member,
    text_of_member, u64_member, u64_of_member,
};
use crate::model::name_acceptable;
use crate::state::{opt_view, user_views, AppState, FileOwner, FileOwnerView, User, UserView};
use crate::text::{push_char, trim};
use crate::utils::{device_class, get_device_type, get_random_color, lowercase, palette};

verus! {

/// What a client sends when it connects.
pub struct Auth {
    pub session_id: Option<String>,
    pub room_code: Option<String>,
}

/// Why a connect was turned away.
#[derive(Clone, Copy, PartialEq, Eq, Debug, Structural)]
pub enum Rejection {
    /// The room code offered is not the one that is set.
    InvalidCode,
    /// A room code is asked for and none was offered.
    MissingCode,
}

/// What a socket is told once it is let in.
pub struct Welcome {
    pub user: User,
    pub all_users: Vec<User>,
    pub server_url: String,
}

/// What becomes of a connect.
pub enum Connection {
    /// The socket is to be closed without any event.
    Rejected(Rejection),
    /// The socket is attached under `session_key` and gets `welcome`; where
    /// `announce_join` holds, all other sockets are told that
    /// `welcome.user` has joined.
    Accepted { session_key: String, welcome: Welcome, announce_join: bool },
}

/// The profile of a new user: a fresh identifier, a display name of six
/// hexadecimal digits, a colour of the palette and the device class of the
/// user agent.
pub open spec fn is_fresh_profile(user: UserView, user_agent: Seq<char>) -> bool {
    &&& is_hyphenated_uuid(user.id)
    &&& is_initial_name(user.name)
    &&& palette().contains(user.color)
    &&& user.device == device_class(lowercase(user_agent))
}

/// A profile for a new user.
pub fn fresh_profile(user_agent: &str) -> (user: User)
    ensures
        is_fresh_profile(user@, user_agent@),
{
    let name = fresh_name();
    let color = get_random_color();
    let device = get_device_type(user_agent);
    User { id: fresh_id(), name, color, device }
}

/// A profile that stands in where none is needed: its identifier, name,
/// colour and device are all empty.
fn blank_profile() -> (user: User)
    ensures
        user@ == (UserView {
            id: Seq::empty(),
            name: Seq::empty(),
            color: Seq::empty(),
            device: Seq::empty(),
        }),
{
    User { id: String::new(), name: String::new(), color: String::new(), device: String::new() }
}

/// Attaches `socket_id` under `session_key` and says what the socket is
/// told. `fresh` is the profile for the case that a session is created.
pub fn connect_as(
    state: &mut AppState,
    socket_id: &str,
    session_key: String,
    room_code: Option<String>,
    fresh: User,
    now: u64,
) -> (r: (Welcome, bool))
    requires
        old(state).wf(),
    ensures
        final(state).wf(),
        final(state)@ == old(state)@.connect(
            socket_id@,
            session_key@,
            opt_view(room_code),
            fresh@,
            now,
        ),
        r.0.user@ == final(state)@.sessions[session_key@].user,
        user_views(r.0.all_users@) == final(state)@.live_users(),
        r.0.server_url@ == old(state)@.server_url,
        r.1 == old(state)@.announces_join(socket_id@, session_key@, fresh@, now),
{
    let announce_join = state.connect(socket_id, session_key, room_code, fresh, now);
    let user = match state.sender_of(socket_id) {
        Some(user) => user,
        None => blank_profile(),
    };
    let welcome = Welcome {
        user,
        all_users: state.active_users(),
        server_url: state.server_url().clone(),
    };
    (welcome, announce_join)
}

/// A socket connects. It is turned away if admission is enabled, a room
/// code is set and `auth` does not carry that code. Otherwise it is
/// attached under the session key of `auth`, or under a fresh one where
/// `auth` has none: to the session of that key if there is one that has not
/// expired, to a new session with a fresh profile if not.
pub fn on_connect(
    state: &mut AppState,
    socket_id: &str,
    auth: Auth,
    user_agent: &str,
    now: u64,
) -> (r: Connection)
    requires
        old(state).wf(),
    ensures
        final(state).wf(),
        match r {
            Connection::Rejected(why) => {
                &&& !old(state)@.admits(opt_view(auth.room_code))
                &&& final(state)@ == old(state)@
                &&& why == if auth.room_code is Some {
                    Rejection::InvalidCode
                } else {
                    Rejection::MissingCode
                }
            },
            Connection::Accepted { session_key, welcome, announce_join } => {
                &&& old(state)@.admits(opt_view(auth.room_code))
                &&& auth.session_id matches Some(id) ==> session_key@ == id@
                &&& auth.session_id is None ==> is_hyphenated_uuid(session_key@)
                &&& !old(state)@.reusable(session_key@, now) ==> is_fresh_profile(
                    welcome.user@,
                    user_agent@,
                )
                &&& final(state)@ == old(state)@.connect(
                    socket_id@,
                    session_key@,
                    opt_view(auth.room_code),
                    welcome.user@,
                    now,
                )
                &&& welcome.user@ == final(state)@.sessions[session_key@].user
                &&& user_views(welcome.all_users@) == final(state)@.live_users()
                &&& welcome.server_url@ == old(state)@.server_url
                &&& announce_join == old(state)@.announces_join(
                    socket_id@,
                    session_key@,
                    welcome.user@,
                    now,
                )
            },
        },
{
    if !state.admits(&auth.room_code) {
        let why = if auth.room_code.is_some() {
            Rejection::InvalidCode
        } else {
            Rejection::MissingCode
        };
        return Connection::Rejected(why);
    }
    let session_key = match auth.session_id {
        Some(id) => id,
        None => fresh_id(),
    };
    let fresh = if state.resumes(session_key.as_str(), now) {
        blank_profile()
    } else {
        fresh_profile(user_agent)
    };
    let key = session_key.clone();
    let (welcome, announce_join) = connect_as(state, socket_id, key, auth.room_code, fresh, now);
    Connection::Accepted { session_key, welcome, announce_join }
}

/// What becomes of a request for a new display name.
pub enum NameChange {
    /// The name is empty or too long: the requester is told that it failed.
    Rejected,
    /// The socket is attached to no session: nothing happens.
    Ignored,
    /// The requester is told `name`, and everybody gets `all_users`.
    Changed { name: String, all_users: Vec<User> },
}

/// The message for a requester whose name was rejected.
pub fn name_change_fail_text() -> (r: String)
    ensures
        r@ == "名字无效或太长"@,
{
    "名字无效或太长".to_string()
}

/// The user behind `socket_id` asks for the display name `new_name`. The
/// name counts without the white space round it and must have between 1
/// and 24 characters. Where another live session bears it already, a `1`
/// is put behind it.
pub fn request_name_change(state: &mut AppState, socket_id: &str, new_name: &str) -> (r: NameChange)
    requires
        old(state).wf(),
    ensures
        final(state).wf(),
        match r {
            NameChange::Rejected => !name_acceptable(new_name@) && final(state)@ == old(state)@,
            NameChange::Ignored => {
                &&& name_acceptable(new_name@)
                &&& old(state)@.session_key_of(socket_id@) is None
                &&& final(state)@ == old(state)@
            },
            NameChange::Changed { name, all_users } => {
                &&& name_acceptable(new_name@)
                &&& old(state)@.session_key_of(socket_id@) matches Some(key)
                &&& name@ == old(state)@.granted_name(key, new_name@)
                &&& final(state)@ == old(state)@.rename(key, name@)
                &&& user_views(all_users@) == final(state)@.live_users()
            },
        },
{
    let wanted = trim(new_name);
    let len = wanted.as_str().unicode_len();
    if len == 0 || len > 24 {
        return NameChange::Rejected;
    }
    let key = match state.session_key_of(socket_id) {
        Some(key) => key,
        None => {
            return NameChange::Ignored;
        },
    };
    let mut name = wanted;
    if state.name_taken(key.as_str(), name.as_str()) {
        push_char(&mut name, '1');
    }
    state.rename(key.as_str(), name.clone());
    NameChange::Changed { name, all_users: state.active_users() }
}

/// A chat message as it goes out to every socket.
pub struct ChatMessage {
    pub id: u64,
    pub sender_id: String,
    pub sender_name: String,
    pub sender_color: String,
    pub sender_device: String,
    pub msg_type: String,
    pub text: String,
}

impl ChatMessage {
    /// The message is the text `text` of the user `sender`, sent at `now`.
    pub open spec fn is_from(&self, sender: UserView, text: Seq<char>, now: u64) -> bool {
        &&& self.id == now
        &&& self.sender_id@ == sender.id
        &&& self.sender_name@ == sender.name
        &&& self.sender_color@ == sender.color
        &&& self.sender_device@ == sender.device
        &&& self.msg_type@ == "text"@
        &&& self.text@ == text
    }
}

/// The user behind `socket_id` sends `text`. The message that goes out to
/// all sockets, the sender's own among them, bears the user's stable
/// identifier and the time as its identifier. A socket that is attached to
/// no session sends nothing.
pub fn text_message(state: &AppState, socket_id: &str, text: String, now: u64) -> (r: Option<
    ChatMessage,
>)
    requires
        state.wf(),
    ensures
        match r {
            Some(message) => state@.sender_of(socket_id@) matches Some(sender) && message.is_from(
                sender,
                text@,
                now,
            ),
            None => state@.sender_of(socket_id@) is None,
        },
{
    match state.sender_of(socket_id) {
        Some(sender) => Some(
            ChatMessage {
                id: now,
                sender_id: sender.id,
                sender_name: sender.name,
                sender_color: sender.color,
                sender_device: sender.device,
                msg_type: "text".to_string(),
                text,
            },
        ),
        None => None,
    }
}

/// The keys that a file announcement gets from the server.
pub open spec fn enrichment_keys() -> Set<Seq<char>> {
    set![
        "fileId"@,
        "id"@,
        "senderId"@,
        "senderName"@,
        "senderColor"@,
        "senderDevice"@,
        "type"@,
    ]
}

/// `after` is the announcement `before` with what the server adds to it:
/// the file's identifier, the time as the message's identifier, the
/// sender's profile and the message type. Every other member is as it was.
pub open spec fn enriched(
    before: serde_json::Value,
    after: serde_json::Value,
    file_id: Seq<char>,
    sender: UserView,
    now: u64,
) -> bool {
    &&& json_is_object(after)
    &&& json_members(after).dom() == json_members(before).dom().union(enrichment_keys())
    &&& forall|k: Seq<char>|
        json_members(before).contains_key(k) && !enrichment_keys().contains(k)
            ==> #[trigger] json_members(after)[k] == json_members(before)[k]
    &&& text_member(after, "fileId"@) == Some(file_id)
    &&& u64_member(after, "id"@) == Some(now)
    &&& text_member(after, "senderId"@) == Some(sender.id)
    &&& text_member(after, "senderName"@) == Some(sender.name)
    &&& text_member(after, "senderColor"@) == Some(sender.color)
    &&& text_member(after, "senderDevice"@) == Some(sender.device)
    &&& text_member(after, "type"@) == Some("file-meta"@)
}

/// The keys of the enrichment differ from one another.
proof fn lemma_enrichment_keys_differ()
    ensures
        "fileId"@.len() == 6,
        "id"@.len() == 2,
        "senderId"@.len() == 8,
        "senderName"@.len() == 10,
        "senderColor"@.len() == 11,
        "senderDevice"@.len() == 12,
        "type"@.len() == 4,
{
    reveal_strlit("fileId");
    reveal_strlit("id");
    reveal_strlit("senderId");
    reveal_strlit("senderName");
    reveal_strlit("senderColor");
    reveal_strlit("senderDevice");
    reveal_strlit("type");
}

/// Writes into the announcement `meta` what the server adds to it.
pub fn enrich_file_meta(meta: &mut serde_json::Value, file_id: &str, sender: &User, now: u64)
    requires
        json_is_object(*old(meta)),
    ensures
        enriched(*old(meta), *final(meta), file_id@, sender@, now),
{
    proof {
        lemma_enrichment_keys_differ();
    }
    let ghost before = *meta;
    set_text_member(meta, "fileId", file_id.to_string());
    set_u64_member(meta, "id", now);
    set_text_member(meta, "senderId", sender.id.clone());
    set_text_member(meta, "senderName", sender.name.clone());
    set_text_member(meta, "senderColor", sender.color.clone());
    set_text_member(meta, "senderDevice", sender.device.clone());
    set_text_member(meta, "type", "file-meta".to_string());
    assert(json_members(*meta).dom() =~= json_members(before).dom().union(enrichment_keys()));
}

/// What becomes of a file announcement.
pub enum FileMetaOutcome {
    /// The socket is attached to no session: nothing is sent.
    Ignored,
    /// The payload is no object: it goes out to all sockets as it came.
    Relayed,
    /// The payload, with what the server added, goes out to all sockets,
    /// and `owner` is on record for the file `file_id`.
    Announced { file_id: String, owner: FileOwner },
}

/// The record that an announcement leads to: the announcing socket, the
/// file name of the announcement or `unknown_file`, and its file size or 0.
pub open spec fn announced_owner(socket: Seq<char>, meta: serde_json::Value) -> FileOwnerView {
    FileOwnerView {
        owning_socket: socket,
        file_name: match text_member(meta, "fileName"@) {
            Some(name) => name,
            None => "unknown_file"@,
        },
        file_size: match u64_member(meta, "fileSize"@) {
            Some(size) => size,
            None => 0,
        },
    }
}

/// The user behind `socket_id` announces a file with the payload `meta`.
/// The file gets the identifier of the payload, or a fresh one where the
/// payload has none; the socket is recorded as its owner; and the payload
/// is filled in with that identifier, the time, the sender's profile and
/// the message type.
pub fn file_meta(state: &mut AppState, socket_id: &str, meta: &mut serde_json::Value, now: u64) -> (r:
    FileMetaOutcome)
    requires
        old(state).wf(),
    ensures
        final(state).wf(),
        match r {
            FileMetaOutcome::Ignored => {
                &&& old(state)@.sender_of(socket_id@) is None
                &&& final(state)@ == old(state)@
                &&& *final(meta) == *old(meta)
            },
            FileMetaOutcome::Relayed => {
                &&& old(state)@.sender_of(socket_id@) is Some
                &&& !json_is_object(*old(meta))
                &&& final(state)@ == old(state)@
                &&& *final(meta) == *old(meta)
            },
            FileMetaOutcome::Announced { file_id, owner } => {
                &&& old(state)@.sender_of(socket_id@) matches Some(sender)
                &&& json_is_object(*old(meta))
                &&& match text_member(*old(meta), "fileId"@) {
                    Some(id) => file_id@ == id,
                    None => is_hyphenated_uuid(file_id@),
                }
                &&& owner@ == announced_owner(socket_id@, *old(meta))
                &&& enriched(*old(meta), *final(meta), file_id@, sender, now)
                &&& final(state)@ == old(state)@.announce(file_id@, owner@)
            },
        },
{
    let sender = match state.sender_of(socket_id) {
        Some(sender) => sender,
        None => {
            return FileMetaOutcome::Ignored;
        },
    };
    if !is_object(meta) {
        return FileMetaOutcome::Relayed;
    }
    let file_id = match text_of_member(meta, "fileId") {
        Some(id) => id,
        None => fresh_id(),
    };
    let file_name = match text_of_member(meta, "fileName") {
        Some(name) => name,
        None => "unknown_file".to_string(),
    };
    let file_size = match u64_of_member(meta, "fileSize") {
        Some(size) => size,
        None => 0,
    };
    enrich_file_meta(meta, file_id.as_str(), &sender, now);
    let owner = FileOwner { owning_socket: socket_id.to_string(), file_name, file_size };
    state.announce(file_id.clone(), owner.clone());
    FileMetaOutcome::Announced { file_id, owner }
}

/// A socket has gone. Returns the identifier of the user whose leaving the
/// other sockets are told of: the one whose session has no socket left.
pub fn on_disconnect(state: &mut AppState, socket_id: &str, now: u64) -> (left: Option<String>)
    requires
        old(state).wf(),
    ensures
        final(state).wf(),
        final(state)@ == old(state)@.disconnect(socket_id@, now),
        opt_view(left) == old(state)@.leaver(socket_id@),
{
    state.disconnect(socket_id, now)
}

} // verus!
