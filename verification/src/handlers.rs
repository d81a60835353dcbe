//! What the HTTP handlers decide: the plan of a download, the claim of an
//! upload, and the reply to a request for a static asset.

use vstd::prelude::*;
use vstd::string::StringExecFns;
use crate::ids::{fresh_id, is_hyphenated_uuid};
use crate::range::{lemma_range_inside_file, parse_range, requested_range, ByteRange};
use crate::model::AppStateView;
use crate::state::{AppState, FileOwner};
use crate::text::{
    chars_of, decimal_chars, decimal_digits, find, lossy_text, occurs, occurs_at, str_eq,
    string_of, string_of_range, utf8_lossy,
};
use crate::transfer::{
    channel_capacity, chunk_channel, same_channel, ChunkReceiver, ChunkSender, TRANSFER_BLOCKS,
};
use crate::utils::{generate_room_code, is_room_code, validate_room_code};

verus! {

/// The script that goes into the head of the front page. It stands in for
/// the host's command interface where the page runs inside a frame.
pub const TAURI_MOCK_SCRIPT: &'static str =
    "<script>\n(function() {\n    if (window.parent !== window) {\n        window.__TAURI__ = window.__TAURI__ || {};\n        window.__TAURI__.core = window.__TAURI__.core || {};\n        window.__TAURI__.core.invoke = async (cmd, args) => {\n            console.log('[Tauri Mock] invoke:', cmd, args);\n            if (cmd === 'download_file') {\n                window.parent.postMessage({ \n                    type: 'download_request', \n                    url: args.url, \n                    fileName: args.fileName\n                }, '*');\n                return Promise.resolve();\n            }\n            return Promise.reject('Command not implemented: ' + cmd);\n        };\n        window.__TAURI__.invoke = window.__TAURI__.core.invoke;\n        window.__TAURI_INTERNALS__ = { postMessage: () => {} };\n        console.log('[Tauri Mock] Injected via server');\n    }\n})();\n</script>";

/// The position of the first occurrence of `needle` in `hay`, where there is one.
pub open spec fn first_occurrence(hay: Seq<char>, needle: Seq<char>) -> int {
    choose|i: int|
        occurs_at(hay, needle, i) && forall|j: int| 0 <= j < i ==> !occurs_at(hay, needle, j)
}

/// The page `html` with the script right behind its first `<head>`; a
/// page without `<head>` stays as it is.
pub open spec fn injected(html: Seq<char>) -> Seq<char> {
    if occurs(html, "<head>"@) {
        let at = first_occurrence(html, "<head>"@) + "<head>"@.len();
        html.take(at) + TAURI_MOCK_SCRIPT@ + html.skip(at)
    } else {
        html
    }
}

/// Puts the script into the head of the page `html`.
pub fn inject_tauri_mock(html: &str) -> (r: String)
    ensures
        r@ == injected(html@),
{
    let page = chars_of(html);
    let tag = chars_of("<head>");
    match find(&page, &tag) {
        Some(i) => {
            let n = page.len();
            assert(i + tag@.len() <= n);
            let at = i + tag.len();
            proof {
                let first = first_occurrence(page@, tag@);
                assert(occurs_at(page@, tag@, i as int));
                if first < i {
                    assert(!occurs_at(page@, tag@, first));
                }
                assert(first == i);
            }
            let mut out = string_of_range(&page, 0, at);
            out.append(TAURI_MOCK_SCRIPT);
            let rest = string_of_range(&page, at, page.len());
            out.append(rest.as_str());
            assert(page@.subrange(0, at as int) =~= page@.take(at as int));
            assert(page@.subrange(at as int, page@.len() as int) =~= page@.skip(at as int));
            out
        },
        None => html.to_string(),
    }
}

/// The media type that `mime_guess` gives for a path.
pub uninterp spec fn guessed_mime(path: Seq<char>) -> Seq<char>;

/// `mime_guess::from_path` with `MimeGuess::first_or_octet_stream`: the
/// media type that goes with the extension of `path`, by the crate's table.
/// The result is a function of the path alone, and `guessed_mime` is its name.
#[verifier::external_body]
pub(crate) fn guess_mime(path: &str) -> (r: String)
    ensures
        r@ == guessed_mime(path@),
{
    mime_guess::from_path(path).first_or_octet_stream().as_ref().to_string()
}

/// The position behind the slashes at the start of `s`.
pub open spec fn leading_slashes(s: Seq<char>) -> int
    decreases s.len(),
{
    if s.len() > 0 && s[0] == '/' {
        1 + leading_slashes(s.drop_first())
    } else {
        0
    }
}

/// The path of the asset that a request for `uri_path` asks for: the path
/// without the slashes at its start, and the front page where nothing is left.
pub open spec fn asset_path_of(uri_path: Seq<char>) -> Seq<char> {
    let rest = uri_path.skip(leading_slashes(uri_path));
    if rest.len() == 0 {
        "index.html"@
    } else {
        rest
    }
}

/// The path of the asset that a request for `uri_path` asks for.
pub fn asset_path(uri_path: &str) -> (r: String)
    ensures
        r@ == asset_path_of(uri_path@),
{
    let v = chars_of(uri_path);
    let mut i: usize = 0;
    assert(v@.skip(0) =~= v@);
    while i < v.len() && v[i] == '/'
        invariant
            i <= v@.len(),
            leading_slashes(v@) == i + leading_slashes(v@.skip(i as int)),
        decreases v@.len() - i,
    {
        assert(v@.skip(i as int).drop_first() =~= v@.skip(i + 1));
        i += 1;
    }
    if i == v.len() {
        return "index.html".to_string();
    }
    assert(v@.skip(i as int) =~= v@.subrange(i as int, v@.len() as int));
    string_of_range(&v, i, v.len())
}

/// The reply to a request for a static asset.
pub enum StaticReply {
    /// The asset as it is stored.
    Asset { content_type: String, body: Vec<u8> },
    /// The front page, with the script in its head.
    Page { content_type: String, html: String },
    /// Neither the asset nor a front page is there.
    NotFound,
}

/// The reply to a request for the asset `path`, given the media type of
/// the path and that of the front page, the stored asset if there is one
/// and the stored front page. An asset that is there is sent as it is,
/// unless it is the front page; where it is missing, the front page takes
/// its place. The front page is sent as text with the script in its head.
pub open spec fn static_reply_of(
    path: Seq<char>,
    path_type: Seq<char>,
    index_type: Seq<char>,
    asset: Option<Seq<u8>>,
    index: Option<Seq<u8>>,
) -> (Seq<char>, Option<Seq<u8>>, Option<Seq<char>>) {
    match asset {
        Some(body) => if path == "index.html"@ {
            (path_type, None, Some(injected(lossy_text(body))))
        } else {
            (path_type, Some(body), None)
        },
        None => match index {
            Some(page) => (index_type, None, Some(injected(lossy_text(page)))),
            None => (Seq::empty(), None, None),
        },
    }
}

impl StaticReply {
    /// The reply as its media type, its bytes and its text.
    pub open spec fn parts(&self) -> (Seq<char>, Option<Seq<u8>>, Option<Seq<char>>) {
        match self {
            StaticReply::Asset { content_type, body } => (content_type@, Some(body@), None),
            StaticReply::Page { content_type, html } => (content_type@, None, Some(html@)),
            StaticReply::NotFound => (Seq::empty(), None, None),
        }
    }
}

/// The reply to a request for the asset `path`, where the media types are
/// known already.
pub fn static_reply(
    path: &str,
    path_type: String,
    index_type: String,
    asset: Option<Vec<u8>>,
    index: Option<Vec<u8>>,
) -> (r: StaticReply)
    ensures
        r.parts() == static_reply_of(
            path@,
            path_type@,
            index_type@,
            match asset {
                Some(b) => Some(b@),
                None => None,
            },
            match index {
                Some(b) => Some(b@),
                None => None,
            },
        ),
        asset is Some && path@ != "index.html"@ ==> r is Asset,
        (asset is Some && path@ == "index.html"@) || (asset is None && index is Some) ==> r is Page,
        asset is None && index is None ==> r is NotFound,
{
    match asset {
        Some(body) => {
            if str_eq(path, "index.html") {
                let text = utf8_lossy(body.as_slice());
                StaticReply::Page { content_type: path_type, html: inject_tauri_mock(text.as_str()) }
            } else {
                StaticReply::Asset { content_type: path_type, body }
            }
        },
        None => match index {
            Some(page) => {
                let text = utf8_lossy(page.as_slice());
                StaticReply::Page {
                    content_type: index_type,
                    html: inject_tauri_mock(text.as_str()),
                }
            },
            None => StaticReply::NotFound,
        },
    }
}

/// The reply to a request for the asset `path`: `asset` is what is stored
/// under that path and `index` what is stored as the front page.
pub fn static_handler(path: &str, asset: Option<Vec<u8>>, index: Option<Vec<u8>>) -> (r:
    StaticReply)
    ensures
        r.parts() == static_reply_of(
            path@,
            guessed_mime(path@),
            guessed_mime("index.html"@),
            match asset {
                Some(b) => Some(b@),
                None => None,
            },
            match index {
                Some(b) => Some(b@),
                None => None,
            },
        ),
{
    static_reply(path, guess_mime(path), guess_mime("index.html"), asset, index)
}

/// The bytes that stay as they are in a percent-encoded text: letters,
/// digits, `-`, `.`, `_` and `~`.
pub open spec fn is_unreserved(b: u8) -> bool {
    ||| 0x30 <= b <= 0x39
    ||| 0x41 <= b <= 0x5A
    ||| 0x61 <= b <= 0x7A
    ||| b == 0x2D
    ||| b == 0x2E
    ||| b == 0x5F
    ||| b == 0x7E
}

/// The hexadecimal digit of a value below sixteen, in capitals.
pub open spec fn hex_digit_upper(n: u8) -> char {
    if n < 10 {
        (0x30 + n) as char
    } else {
        (0x37 + n) as char
    }
}

/// One byte, percent-encoded.
pub open spec fn percent_encoded_byte(b: u8) -> Seq<char> {
    if is_unreserved(b) {
        seq![b as char]
    } else {
        seq!['%', hex_digit_upper(b / 16), hex_digit_upper(b % 16)]
    }
}

/// A sequence of bytes, percent-encoded byte by byte.
pub open spec fn percent_encoded(bytes: Seq<u8>) -> Seq<char>
    decreases bytes.len(),
{
    if bytes.len() == 0 {
        Seq::empty()
    } else {
        percent_encoded(bytes.drop_last()) + percent_encoded_byte(bytes.last())
    }
}

/// `urlencoding::encode`: of the UTF-8 bytes of `s`, letters, digits, `-`,
/// `.`, `_` and `~` stay, and every other byte becomes `%` and its two
/// hexadecimal digits in capitals.
#[verifier::external_body]
pub(crate) fn percent_encode(s: &str) -> (r: String)
    ensures
        r@ == percent_encoded(vstd::utf8::encode_utf8(s@)),
{
    urlencoding::encode(s).into_owned()
}

/// The head of the response to a download.
pub struct ResponseHead {
    pub status: u16,
    pub content_type: String,
    pub content_disposition: String,
    pub content_length: u64,
    pub accept_ranges: String,
    pub content_range: Option<String>,
}

/// The `Content-Disposition` of a download of the file `file_name`.
pub open spec fn disposition_of(file_name: Seq<char>) -> Seq<char> {
    "attachment; filename*=UTF-8''"@ + percent_encoded(vstd::utf8::encode_utf8(file_name))
}

/// The `Content-Range` of the range `range` of a file of `size` bytes.
pub open spec fn content_range_of(range: ByteRange, size: u64) -> Seq<char> {
    "bytes "@ + decimal_digits(range.start as nat) + "-"@ + decimal_digits(range.end as nat) + "/"@
        + decimal_digits(size as nat)
}

impl ResponseHead {
    /// The head answers a download of `range` out of the file `file_name`
    /// of `size` bytes: 206 with a `Content-Range` for a range that was
    /// asked for, 200 without one otherwise, and as length the number of
    /// bytes in the range.
    pub open spec fn answers(&self, file_name: Seq<char>, size: u64, range: ByteRange) -> bool {
        &&& self.status == if range.partial {
            206u16
        } else {
            200u16
        }
        &&& self.content_type@ == "application/octet-stream"@
        &&& self.content_disposition@ == disposition_of(file_name)
        &&& self.content_length == range.end - range.start + 1
        &&& self.accept_ranges@ == "bytes"@
        &&& match self.content_range {
            Some(text) => range.partial && text@ == content_range_of(range, size),
            None => !range.partial,
        }
    }
}

fn decimal_string(n: u64) -> (r: String)
    ensures
        r@ == decimal_digits(n as nat),
{
    string_of(&decimal_chars(n))
}

/// The head of the response to a download of `range` out of the file
/// `file_name` of `size` bytes.
pub fn response_head(file_name: &str, size: u64, range: ByteRange) -> (head: ResponseHead)
    requires
        range.start <= range.end < size,
    ensures
        head.answers(file_name@, size, range),
{
    let mut disposition = "attachment; filename*=UTF-8''".to_string();
    disposition.append(percent_encode(file_name).as_str());
    let content_range = if range.partial {
        let mut text = "bytes ".to_string();
        text.append(decimal_string(range.start).as_str());
        text.append("-");
        text.append(decimal_string(range.end).as_str());
        text.append("/");
        text.append(decimal_string(size).as_str());
        Some(text)
    } else {
        None
    };
    ResponseHead {
        status: if range.partial {
            206
        } else {
            200
        },
        content_type: "application/octet-stream".to_string(),
        content_disposition: disposition,
        content_length: range.end - range.start + 1,
        accept_ranges: "bytes".to_string(),
        content_range,
    }
}

/// The head for a download without a `Range` header reports 200, the
/// size of the file as its length and no `Content-Range`.
pub proof fn lemma_head_of_whole_file(head: ResponseHead, file_name: Seq<char>, size: u64)
    requires
        size > 0,
        requested_range(None, size) matches Some(range) && head.answers(file_name, size, range),
    ensures
        head.status == 200,
        head.content_length == size,
        head.content_range is None,
{
}

/// The head for a download with the header `bytes=a-b`, where `a <= b` and
/// `b` lies inside the file, reports 206, `b - a + 1` as its length and
/// `bytes a-b/size` as its `Content-Range`.
pub proof fn lemma_head_of_range(
    head: ResponseHead,
    file_name: Seq<char>,
    a: u64,
    b: u64,
    size: u64,
)
    requires
        a <= b < size,
        requested_range(
            Some("bytes="@ + decimal_digits(a as nat) + "-"@ + decimal_digits(b as nat)),
            size,
        ) matches Some(range) && head.answers(file_name, size, range),
    ensures
        head.status == 206,
        head.content_length == b - a + 1,
        head.content_range matches Some(text) && text@ == "bytes "@ + decimal_digits(a as nat)
            + "-"@ + decimal_digits(b as nat) + "/"@ + decimal_digits(size as nat),
{
    lemma_range_inside_file(a, b, size);
}

/// What the owner of a file is told when a download of it begins.
pub struct StartUpload {
    /// The socket that the event goes to.
    pub to_socket: String,
    pub file_id: String,
    pub transfer_id: String,
    /// The first byte to send.
    pub offset: u64,
    /// The last byte to send.
    pub end: u64,
}

impl StartUpload {
    /// The event asks the owner `owner` of the file `file_id` for `range`,
    /// to be sent under `transfer_id`.
    pub open spec fn asks(
        &self,
        owner: Seq<char>,
        file_id: Seq<char>,
        transfer_id: Seq<char>,
        range: ByteRange,
    ) -> bool {
        &&& self.to_socket@ == owner
        &&& self.file_id@ == file_id
        &&& self.transfer_id@ == transfer_id
        &&& self.offset == range.start
        &&& self.end == range.end
    }
}

/// The two messages that open a download of the file `file_id` of `owner`
/// under `transfer_id`: the event for the owner and the head of the
/// response. There are none where the `Range` header cannot be met.
pub fn plan_download(
    owner: &FileOwner,
    file_id: &str,
    transfer_id: &str,
    range_header: Option<&str>,
) -> (r: Option<(StartUpload, ResponseHead)>)
    ensures
        match requested_range(
            match range_header {
                Some(h) => Some(h@),
                None => None,
            },
            owner.file_size,
        ) {
            Some(range) => r matches Some(plan) && plan.0.asks(
                owner.owning_socket@,
                file_id@,
                transfer_id@,
                range,
            ) && plan.1.answers(owner.file_name@, owner.file_size, range),
            None => r is None,
        },
{
    match parse_range(range_header, owner.file_size) {
        Some(range) => {
            let start_upload = StartUpload {
                to_socket: owner.owning_socket.clone(),
                file_id: file_id.to_string(),
                transfer_id: transfer_id.to_string(),
                offset: range.start,
                end: range.end,
            };
            Some((start_upload, response_head(owner.file_name.as_str(), owner.file_size, range)))
        },
        None => None,
    }
}

/// What becomes of a request for a download.
pub enum Download {
    /// No such file: 404.
    NotFound,
    /// The range cannot be met: 416. The transfer `transfer_id` stays
    /// allocated, and no upload will come for it.
    RangeNotSatisfiable { transfer_id: String },
    /// `start_upload` goes to the owner, and the response begins with
    /// `head` and goes on with what comes out of `body`, the receive end
    /// of the channel whose send end is stored under the transfer.
    Stream { start_upload: StartUpload, head: ResponseHead, body: ChunkReceiver },
}

/// A receiver asks for the file `file_id`. Where the file is known, a
/// transfer is allocated under a fresh identifier: a channel of
/// `TRANSFER_BLOCKS` blocks is made, its send end is stored and its
/// receive end becomes the body. Then the range is fitted to the file.
pub fn download_file(state: &mut AppState, file_id: &str, range_header: Option<&str>) -> (r:
    Download)
    requires
        old(state).wf(),
    ensures
        final(state).wf(),
        r is NotFound <==> !old(state)@.file_owners.contains_key(file_id@),
        match r {
            Download::NotFound => final(state)@ == old(state)@,
            Download::RangeNotSatisfiable { transfer_id } => {
                &&& is_hyphenated_uuid(transfer_id@)
                &&& final(state)@.transfers.contains_key(transfer_id@)
                &&& channel_capacity(final(state)@.transfers[transfer_id@]) == TRANSFER_BLOCKS
                &&& final(state)@ == old(state)@.open_transfer(
                    transfer_id@,
                    final(state)@.transfers[transfer_id@],
                )
                &&& requested_range(
                    match range_header {
                        Some(h) => Some(h@),
                        None => None,
                    },
                    old(state)@.file_owners[file_id@].file_size,
                ) is None
            },
            Download::Stream { start_upload, head, body } => {
                let owner = old(state)@.file_owners[file_id@];
                &&& is_hyphenated_uuid(start_upload.transfer_id@)
                &&& final(state)@.transfers.contains_key(start_upload.transfer_id@)
                &&& channel_capacity(final(state)@.transfers[start_upload.transfer_id@])
                    == TRANSFER_BLOCKS
                &&& same_channel(final(state)@.transfers[start_upload.transfer_id@], body)
                &&& final(state)@ == old(state)@.open_transfer(
                    start_upload.transfer_id@,
                    final(state)@.transfers[start_upload.transfer_id@],
                )
                &&& requested_range(
                    match range_header {
                        Some(h) => Some(h@),
                        None => None,
                    },
                    owner.file_size,
                ) matches Some(range)
                &&& start_upload.asks(
                    owner.owning_socket,
                    file_id@,
                    start_upload.transfer_id@,
                    range,
                )
                &&& head.answers(owner.file_name, owner.file_size, range)
            },
        },
{
    let owner = match state.file_owner(file_id) {
        Some(owner) => owner,
        None => {
            return Download::NotFound;
        },
    };
    let transfer_id = fresh_id();
    let (sender, body) = chunk_channel(TRANSFER_BLOCKS);
    state.open_transfer(transfer_id.clone(), sender);
    match plan_download(&owner, file_id, transfer_id.as_str(), range_header) {
        Some((start_upload, head)) => Download::Stream { start_upload, head, body },
        None => Download::RangeNotSatisfiable { transfer_id },
    }
}

/// What becomes of an upload.
pub enum Upload {
    /// No such transfer: 404.
    NotFound,
    /// The body of the request goes into `sender`: 200, however it ends.
    Accepted { sender: ChunkSender },
}

/// A sender posts the body for the transfer `transfer_id`. The transfer
/// is handed out and is gone from the table in the same step.
pub fn upload_file(state: &mut AppState, transfer_id: &str) -> (r: Upload)
    requires
        old(state).wf(),
    ensures
        final(state).wf(),
        final(state)@ == old(state)@.take_transfer(transfer_id@),
        !final(state)@.transfers.contains_key(transfer_id@),
        match r {
            Upload::NotFound => !old(state)@.transfers.contains_key(transfer_id@),
            Upload::Accepted { sender } => old(state)@.transfers.contains_key(transfer_id@)
                && sender == old(state)@.transfers[transfer_id@],
        },
{
    match state.take_transfer(transfer_id) {
        Some(sender) => Upload::Accepted { sender },
        None => Upload::NotFound,
    }
}

/// The status of the response to a download: 404 for a file that is not
/// known, 416 for a range that cannot be met, 500 where the owner could
/// not be asked to upload, and the status of the head otherwise.
/// `dispatched` says whether the event for the owner went out.
pub fn download_status(download: &Download, dispatched: bool) -> (status: u16)
    ensures
        status == match download {
            Download::NotFound => 404u16,
            Download::RangeNotSatisfiable { .. } => 416u16,
            Download::Stream { head, .. } => if dispatched {
                head.status
            } else {
                500u16
            },
        },
{
    match download {
        Download::NotFound => 404,
        Download::RangeNotSatisfiable { .. } => 416,
        Download::Stream { head, .. } => if dispatched {
            head.status
        } else {
            500
        },
    }
}

/// The status of the response to an upload.
pub fn upload_status(upload: &Upload) -> (status: u16)
    ensures
        status == match upload {
            Upload::NotFound => 404u16,
            Upload::Accepted { .. } => 200u16,
        },
{
    match upload {
        Upload::NotFound => 404,
        Upload::Accepted { .. } => 200,
    }
}

/// A new room code is asked for. A code that is offered is taken if it
/// has the form of a room code and turned down if not; where none is
/// offered, a code is drawn at random. Returns whether the code changed.
pub fn update_roomcode(state: &mut AppState, offered: Option<String>) -> (changed: bool)
    requires
        old(state).wf(),
    ensures
        final(state).wf(),
        changed == match offered {
            Some(code) => is_room_code(code@),
            None => true,
        },
        changed ==> (final(state)@.room_code matches Some(code) && is_room_code(code)),
        changed ==> final(state)@ == (AppStateView {
            room_code: final(state)@.room_code,
            ..old(state)@
        }),
        changed ==> (offered matches Some(code) ==> final(state)@.room_code == Some(code@)),
        !changed ==> final(state)@ == old(state)@,
{
    let code = match offered {
        Some(code) => {
            if !validate_room_code(code.as_str()) {
                return false;
            }
            code
        },
        None => generate_room_code(),
    };
    state.set_room_code(Some(code));
    true
}

} // verus!
