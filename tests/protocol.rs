use androidfs::messages::{read_info, write_info};
use androidfs::models::{FileInfo, Timestamp};
use androidfs::protocol::{
    decode_request, decode_response, encode_request, encode_response, expected_payload,
};
use androidfs::requests::{
    CreateDirectory, CreateFile, MoveFile, OpenFile, ReadFile, Request, SetEndOfFile, WriteFile,
};
use androidfs::responses::{Error, FreeSpace, Payload, PayloadKind};
use androidfs::wire::{decode_frame, encode_frame, frame_length};

fn info(name: &str, size: u64, mode: u32) -> FileInfo {
    FileInfo {
        creation_time: Timestamp { secs: 1_600_000_000, nanos: 5 },
        last_modified: Timestamp { secs: 1_600_000_100, nanos: 999_999_999 },
        last_accessed: Timestamp { secs: 0, nanos: 0 },
        name: name.to_string(),
        size,
        mode,
        ino: 77,
    }
}

fn same_info(a: &FileInfo, b: &FileInfo) -> bool {
    a.creation_time == b.creation_time
        && a.last_modified == b.last_modified
        && a.last_accessed == b.last_accessed
        && a.name == b.name
        && a.size == b.size
        && a.mode == b.mode
        && a.ino == b.ino
}

fn all_requests() -> Vec<Request> {
    vec![
        Request::List("/sdcard".to_string()),
        Request::Stat("/sdcard/é.txt".to_string()),
        Request::Delete("/a/b".to_string()),
        Request::CreateFile(CreateFile { path: "/new".to_string() }),
        Request::CreateDirectory(CreateDirectory { path: "/dir".to_string() }),
        Request::Open(OpenFile { path: "/f".to_string() }),
        Request::Close(42),
        Request::Move(MoveFile {
            from: "/x".to_string(),
            to: "/y".to_string(),
            replace_if_exists: true,
        }),
        Request::GetFreeSpace,
        Request::Read(ReadFile { handle: 5, offset: 3, len: 20 }),
        Request::Write(WriteFile { handle: 6, offset: 1 << 40, len: 9 }),
        Request::SetEndOfFile(SetEndOfFile { handle: 7, len: 11 }),
    ]
}

#[test]
fn every_request_round_trips() {
    for r in all_requests() {
        let bytes = encode_request(&r);
        let back = decode_request(&bytes).expect("decodes");
        assert_eq!(format!("{:?}", back), format!("{:?}", r));
    }
}

#[test]
fn request_layout_matches_bincode() {
    let list = encode_request(&Request::List("abc".to_string()));
    assert_eq!(list, bincode::serialize(&(0u32, "abc".to_string())).unwrap());
    let read = encode_request(&Request::Read(ReadFile { handle: 5, offset: 3, len: 20 }));
    assert_eq!(read, bincode::serialize(&(9u32, 5u32, 3u64, 20u64)).unwrap());
    let mv = encode_request(&Request::Move(MoveFile {
        from: "a".to_string(),
        to: "b".to_string(),
        replace_if_exists: false,
    }));
    assert_eq!(mv, bincode::serialize(&(7u32, "a", "b", false)).unwrap());
    assert_eq!(encode_request(&Request::GetFreeSpace), vec![8, 0, 0, 0]);
}

#[test]
fn response_layout_matches_bincode() {
    let ok = encode_response(&Ok(Payload::Number(7)));
    assert_eq!(ok, bincode::serialize(&Ok::<u32, u32>(7)).unwrap());
    let err = encode_response(&Err(Error::PermissionDenied));
    assert_eq!(err, bincode::serialize(&Err::<(), u32>(3)).unwrap());
    let unit = encode_response(&Ok(Payload::Unit));
    assert_eq!(unit, vec![0, 0, 0, 0]);
}

#[test]
fn responses_round_trip() {
    let files = vec![info("a.txt", 10, 0o100644), info("dir", 4096, 0o40755)];
    let cases: Vec<(Result<Payload, Error>, PayloadKind)> = vec![
        (Ok(Payload::Files(files)), PayloadKind::Files),
        (Ok(Payload::Files(Vec::new())), PayloadKind::Files),
        (Ok(Payload::Info(info("x", 1, 0o120777))), PayloadKind::Info),
        (Ok(Payload::Number(7)), PayloadKind::Number),
        (
            Ok(Payload::Space(FreeSpace { total_bytes: 64 << 30, free_bytes: 3 << 30 })),
            PayloadKind::Space,
        ),
        (Ok(Payload::Unit), PayloadKind::Unit),
        (Err(Error::FileNotFound), PayloadKind::Info),
        (Err(Error::NoSuchHandle), PayloadKind::Number),
        (Err(Error::FileExists), PayloadKind::Unit),
        (Err(Error::PermissionDenied), PayloadKind::Files),
        (Err(Error::CouldNotFindDisk), PayloadKind::Space),
        (Err(Error::Other), PayloadKind::Unit),
    ];
    for (r, kind) in cases {
        let bytes = encode_response(&r);
        let back = decode_response(&bytes, kind).expect("decodes");
        assert_eq!(format!("{:?}", back), format!("{:?}", r));
    }
}

#[test]
fn file_info_round_trips() {
    let f = info("naïve name", u64::MAX, 0o100600);
    let mut out = Vec::new();
    write_info(&mut out, &f);
    let (back, end) = read_info(&out, 0).expect("decodes");
    assert!(same_info(&back, &f));
    assert_eq!(end, out.len());
}

#[test]
fn malformed_messages_are_refused() {
    assert!(decode_request(&[]).is_none());
    assert!(decode_request(&[12, 0, 0, 0]).is_none());
    // A string that claims more bytes than there are.
    assert!(decode_request(&[0, 0, 0, 0, 9, 0, 0, 0, 0, 0, 0, 0, b'a']).is_none());
    // A string that is not UTF-8.
    assert!(decode_request(&[1, 0, 0, 0, 1, 0, 0, 0, 0, 0, 0, 0, 0xFF]).is_none());
    // A flag that is neither 0 nor 1.
    let mut mv = bincode::serialize(&(7u32, "a", "b")).unwrap();
    mv.push(2);
    assert!(decode_request(&mv).is_none());
    assert!(decode_response(&[2, 0, 0, 0], PayloadKind::Unit).is_none());
    assert!(decode_response(&[1, 0, 0, 0, 6, 0, 0, 0], PayloadKind::Unit).is_none());
    assert!(decode_response(&[0, 0, 0, 0, 1, 0], PayloadKind::Number).is_none());
}

#[test]
fn frames_read_back_in_sequence() {
    let x = encode_request(&Request::Stat("/a".to_string()));
    let y = encode_request(&Request::Close(3));
    let mut stream = encode_frame(&x);
    assert_eq!(&stream[..8], &(x.len() as u64).to_be_bytes());
    stream.extend(encode_frame(&y));
    let (first, p) = decode_frame(&stream, 0).expect("first frame");
    assert_eq!(first, x);
    let (second, q) = decode_frame(&stream, p).expect("second frame");
    assert_eq!(second, y);
    assert_eq!(q, stream.len());
    assert!(decode_frame(&stream, q).is_none());
    assert_eq!(frame_length(&stream, 0), x.len() as u64);
}

#[test]
fn truncated_frame_is_refused() {
    let framed = encode_frame(&[1, 2, 3]);
    assert!(decode_frame(&framed[..framed.len() - 1], 0).is_none());
    assert!(decode_frame(&framed[..5], 0).is_none());
}

#[test]
fn answer_shape_follows_request() {
    assert_eq!(expected_payload(&Request::List("/".to_string())), PayloadKind::Files);
    assert_eq!(expected_payload(&Request::Stat("/".to_string())), PayloadKind::Info);
    assert_eq!(
        expected_payload(&Request::Open(OpenFile { path: "/".to_string() })),
        PayloadKind::Number
    );
    assert_eq!(
        expected_payload(&Request::Read(ReadFile { handle: 1, offset: 0, len: 1 })),
        PayloadKind::Number
    );
    assert_eq!(expected_payload(&Request::GetFreeSpace), PayloadKind::Space);
    assert_eq!(expected_payload(&Request::Close(1)), PayloadKind::Unit);
}
