use zher::handlers::{
    download_file, download_status, plan_download, response_head, upload_file, upload_status,
    Download, Upload,
};
use zher::range::{fit_range, parse_range, read_range_bounds, ByteRange};
use zher::state::{AppState, FileOwner, User};
use zher::ws::{connect_as, on_disconnect};

fn range(start: u64, end: u64, partial: bool) -> Option<ByteRange> {
    Some(ByteRange { start, end, partial })
}

fn owner(name: &str, size: u64) -> FileOwner {
    FileOwner { owning_socket: "sock-a".to_string(), file_name: name.to_string(), file_size: size }
}

fn state_with_file(file_id: &str, name: &str, size: u64) -> AppState {
    let mut state = AppState::default();
    let user = User {
        id: "u".to_string(),
        name: "ann".to_string(),
        color: "#ef4444".to_string(),
        device: "desktop".to_string(),
    };
    connect_as(&mut state, "sock-a", "s".to_string(), None, user, 1);
    state.announce(file_id.to_string(), owner(name, size));
    state
}

#[test]
fn no_header_gives_the_whole_file() {
    assert_eq!(parse_range(None, 10), range(0, 9, false));
    assert_eq!(parse_range(None, 1), range(0, 0, false));
    assert_eq!(parse_range(None, u64::MAX), range(0, u64::MAX - 1, false));
    assert_eq!(parse_range(Some("items=0-3"), 10), range(0, 9, false));
    assert_eq!(parse_range(Some(""), 10), range(0, 9, false));
    assert_eq!(parse_range(Some(" bytes=0-3"), 10), range(0, 9, false));
}

#[test]
fn an_empty_file_cannot_be_downloaded() {
    assert_eq!(parse_range(None, 0), None);
    assert_eq!(parse_range(Some("bytes=0-"), 0), None);
    assert_eq!(parse_range(Some("bytes=0-0"), 0), None);
}

#[test]
fn ranges_inside_the_file_are_partial() {
    assert_eq!(parse_range(Some("bytes=3-7"), 10), range(3, 7, true));
    assert_eq!(parse_range(Some("bytes=0-0"), 10), range(0, 0, true));
    assert_eq!(parse_range(Some("bytes=9-9"), 10), range(9, 9, true));
    assert_eq!(parse_range(Some("bytes=0-9"), 10), range(0, 9, true));
}

#[test]
fn open_ranges_run_to_the_end_of_the_file() {
    assert_eq!(parse_range(Some("bytes=0-"), 10), range(0, 9, true));
    assert_eq!(parse_range(Some("bytes=4-"), 10), range(4, 9, true));
    assert_eq!(parse_range(Some("bytes=4"), 10), range(4, 9, true));
}

#[test]
fn a_header_without_bounds_counts_as_no_header() {
    assert_eq!(parse_range(Some("bytes=-"), 10), range(0, 9, false));
    assert_eq!(parse_range(Some("bytes="), 10), range(0, 9, false));
    assert_eq!(parse_range(Some("bytes=a-b"), 10), range(0, 9, false));
}

#[test]
fn ranges_that_cannot_be_met() {
    assert_eq!(parse_range(Some("bytes=5-3"), 10), None);
    assert_eq!(parse_range(Some("bytes=10-"), 10), None);
    assert_eq!(parse_range(Some("bytes=10-12"), 10), None);
    assert_eq!(parse_range(Some("bytes=11-"), 10), None);
    assert_eq!(parse_range(Some("bytes=18446744073709551615-"), u64::MAX), None);
}

#[test]
fn the_last_byte_is_cut_to_the_file() {
    assert_eq!(parse_range(Some("bytes=3-99"), 10), range(3, 9, true));
    assert_eq!(parse_range(Some("bytes=-4"), 10), range(0, 4, true));
    assert_eq!(parse_range(Some("bytes=-99"), 10), range(0, 9, true));
    assert_eq!(parse_range(Some("bytes=0-18446744073709551615"), 10), range(0, 9, true));
}

#[test]
fn range_bounds_follow_the_number_syntax() {
    assert_eq!(read_range_bounds("bytes=3-7"), (Some(3), Some(7)));
    assert_eq!(read_range_bounds("bytes=+3-+7"), (Some(3), Some(7)));
    assert_eq!(read_range_bounds("bytes=003-007"), (Some(3), Some(7)));
    assert_eq!(read_range_bounds("bytes= 3-7"), (None, Some(7)));
    assert_eq!(read_range_bounds("bytes=3-7 "), (Some(3), None));
    assert_eq!(read_range_bounds("bytes=+-+"), (None, None));
    assert_eq!(read_range_bounds("bytes=18446744073709551615-18446744073709551616"), (Some(u64::MAX), None));
    assert_eq!(read_range_bounds("bytes=1-2-3"), (Some(1), Some(2)));
    assert_eq!(read_range_bounds("bytes=1--3"), (Some(1), None));
    assert_eq!(read_range_bounds("bytes=bytes=4-5"), (Some(4), Some(5)));
    assert_eq!(read_range_bounds("Bytes=4-5"), (None, None));
    assert_eq!(read_range_bounds("bytes=٣-٧"), (None, None));
    // The same fields as `str::parse` reads them.
    for field in ["", "+", "-", "0", "+0", "00", "9", "a", "1a", "18446744073709551615", "18446744073709551616", "99999999999999999999999"] {
        let header = format!("bytes={field}-{field}");
        let expected = if field.contains('-') { None } else { field.parse::<u64>().ok() };
        assert_eq!(read_range_bounds(&header).0, expected, "{field}");
    }
}

#[test]
fn fit_range_takes_each_bound_where_it_is_named() {
    assert_eq!(fit_range((None, None), 5), range(0, 4, false));
    assert_eq!(fit_range((Some(2), None), 5), range(2, 4, true));
    assert_eq!(fit_range((None, Some(2)), 5), range(0, 2, true));
    assert_eq!(fit_range((Some(5), Some(9)), 5), None);
    assert_eq!(fit_range((Some(3), Some(2)), 5), None);
    assert_eq!(fit_range((None, None), 0), None);
}

#[test]
fn response_head_of_a_whole_file() {
    let head = response_head("x.bin", 10, ByteRange { start: 0, end: 9, partial: false });
    assert_eq!(head.status, 200);
    assert_eq!(head.content_type, "application/octet-stream");
    assert_eq!(head.content_disposition, "attachment; filename*=UTF-8''x.bin");
    assert_eq!(head.content_length, 10);
    assert_eq!(head.accept_ranges, "bytes");
    assert_eq!(head.content_range, None);
}

#[test]
fn response_head_of_a_range() {
    let head = response_head("x.bin", 10, ByteRange { start: 3, end: 7, partial: true });
    assert_eq!(head.status, 206);
    assert_eq!(head.content_length, 5);
    assert_eq!(head.content_range, Some("bytes 3-7/10".to_string()));
    let big = response_head("x", u64::MAX, ByteRange { start: 0, end: u64::MAX - 1, partial: true });
    assert_eq!(big.content_length, u64::MAX);
    assert_eq!(
        big.content_range,
        Some("bytes 0-18446744073709551614/18446744073709551615".to_string())
    );
}

#[test]
fn file_names_are_percent_encoded() {
    let head = response_head("my file (1).txt", 1, ByteRange { start: 0, end: 0, partial: false });
    assert_eq!(head.content_disposition, "attachment; filename*=UTF-8''my%20file%20%281%29.txt");
    let head = response_head("报告-v1_2.~é", 1, ByteRange { start: 0, end: 0, partial: false });
    assert_eq!(
        head.content_disposition,
        "attachment; filename*=UTF-8''%E6%8A%A5%E5%91%8A-v1_2.~%C3%A9"
    );
}

#[test]
fn plan_download_names_the_owner_and_the_range() {
    let (event, head) = plan_download(&owner("x.bin", 10), "f1", "t1", Some("bytes=3-7")).unwrap();
    assert_eq!(event.to_socket, "sock-a");
    assert_eq!(event.file_id, "f1");
    assert_eq!(event.transfer_id, "t1");
    assert_eq!(event.offset, 3);
    assert_eq!(event.end, 7);
    assert_eq!(head.status, 206);
    assert_eq!(head.content_range, Some("bytes 3-7/10".to_string()));
    assert!(plan_download(&owner("x.bin", 10), "f1", "t1", Some("bytes=5-3")).is_none());
}

#[test]
fn download_of_an_unknown_file_is_not_found() {
    let mut state = state_with_file("f1", "x.bin", 10);
    let download = download_file(&mut state, "f2", None);
    assert!(matches!(download, Download::NotFound));
    assert_eq!(download_status(&download, true), 404);
    assert_eq!(download_status(&download, false), 404);
}

#[test]
fn download_allocates_a_transfer_and_upload_claims_it_once() {
    let mut state = state_with_file("f1", "x.bin", 10);
    let download = download_file(&mut state, "f1", None);
    assert_eq!(download_status(&download, true), 200);
    assert_eq!(download_status(&download, false), 500);
    let (event, head, mut body) = match download {
        Download::Stream { start_upload, head, body } => (start_upload, head, body),
        _ => panic!("no stream"),
    };
    assert_eq!(event.to_socket, "sock-a");
    assert_eq!(event.file_id, "f1");
    assert_eq!((event.offset, event.end), (0, 9));
    assert_eq!(event.transfer_id.len(), 36);
    assert_eq!(head.content_length, 10);
    assert_eq!(head.content_disposition, "attachment; filename*=UTF-8''x.bin");
    assert!(state.has_transfer(&event.transfer_id));

    let upload = upload_file(&mut state, &event.transfer_id);
    assert_eq!(upload_status(&upload), 200);
    let sender = match upload {
        Upload::Accepted { sender } => sender,
        Upload::NotFound => panic!("the transfer was not found"),
    };
    assert!(!state.has_transfer(&event.transfer_id));
    assert_eq!(sender.max_capacity(), 2);
    assert_eq!(body.max_capacity(), 2);
    let second = upload_file(&mut state, &event.transfer_id);
    assert!(matches!(second, Upload::NotFound));
    assert_eq!(upload_status(&second), 404);

    // What goes into the send end comes out of the body, two blocks at a time.
    let block: Vec<u8> = (0u8..10).collect();
    assert!(sender.try_send(Ok(bytes::Bytes::from(block.clone()))).is_ok());
    assert!(sender.try_send(Ok(bytes::Bytes::from_static(b"more"))).is_ok());
    assert!(sender.try_send(Ok(bytes::Bytes::from_static(b"full"))).is_err());
    assert_eq!(body.try_recv().unwrap().unwrap().to_vec(), block);
    assert_eq!(body.try_recv().unwrap().unwrap().to_vec(), b"more".to_vec());
    drop(body);
    assert!(sender.try_send(Ok(bytes::Bytes::from_static(b"late"))).is_err());
}

#[test]
fn ranged_download_is_partial() {
    let mut state = state_with_file("f1", "x.bin", 10);
    let download = download_file(&mut state, "f1", Some("bytes=3-7"));
    assert_eq!(download_status(&download, true), 206);
    match download {
        Download::Stream { start_upload, head, .. } => {
            assert_eq!((start_upload.offset, start_upload.end), (3, 7));
            assert_eq!(head.content_length, 5);
            assert_eq!(head.content_range, Some("bytes 3-7/10".to_string()));
        }
        _ => panic!("no stream"),
    }
}

#[test]
fn a_range_that_cannot_be_met_leaves_its_transfer_behind() {
    let mut state = state_with_file("f1", "x.bin", 10);
    let download = download_file(&mut state, "f1", Some("bytes=10-"));
    assert_eq!(download_status(&download, true), 416);
    match download {
        Download::RangeNotSatisfiable { transfer_id } => {
            assert!(state.has_transfer(&transfer_id));
            // The upload that nobody asked for finds a channel without a receiver.
            match upload_file(&mut state, &transfer_id) {
                Upload::Accepted { sender } => {
                    assert!(sender.try_send(Ok(bytes::Bytes::new())).is_err())
                }
                Upload::NotFound => panic!("the transfer was not found"),
            }
        }
        _ => panic!("the range was met"),
    }
}

#[test]
fn files_go_with_their_owner() {
    let mut state = state_with_file("f1", "x.bin", 10);
    state.announce("f2".to_string(), owner("y.bin", 3));
    assert_eq!(state.file_owner("f1").unwrap().file_size, 10);
    assert_eq!(state.file_owner("f2").unwrap().file_name, "y.bin");
    on_disconnect(&mut state, "sock-a", 5);
    assert!(state.file_owner("f1").is_none());
    assert!(state.file_owner("f2").is_none());
    assert!(matches!(download_file(&mut state, "f1", None), Download::NotFound));
}

#[test]
fn only_an_attached_socket_can_own_a_file() {
    let mut state = state_with_file("f1", "x.bin", 10);
    let stranger = FileOwner {
        owning_socket: "sock-z".to_string(),
        file_name: "z".to_string(),
        file_size: 1,
    };
    assert!(!state.announce("f9".to_string(), stranger));
    assert!(state.file_owner("f9").is_none());
    assert!(state.announce("f9".to_string(), owner("y", 2)));
    assert_eq!(state.file_owner("f9").unwrap().file_name, "y");
}

#[test]
fn room_codes_are_taken_only_in_their_form() {
    let mut state = AppState::default();
    assert!(!zher::handlers::update_roomcode(&mut state, Some("12345".to_string())));
    assert!(!zher::handlers::update_roomcode(&mut state, Some("abcdef".to_string())));
    assert_eq!(state.room_code(), &None);
    assert!(zher::handlers::update_roomcode(&mut state, Some("004200".to_string())));
    assert_eq!(state.room_code(), &Some("004200".to_string()));
    assert!(!zher::handlers::update_roomcode(&mut state, Some("1".to_string())));
    assert_eq!(state.room_code(), &Some("004200".to_string()));
    assert!(zher::handlers::update_roomcode(&mut state, None));
    let drawn = state.room_code().clone().unwrap();
    assert!(zher::utils::validate_room_code(&drawn));
    assert!(!state.room_code_enabled());
}
