use androidfs::adapter::{
    close_needs_device, convert_attributes, convert_file_name, create_file_after_open,
    create_file_after_stat, create_file_start, disk_space_info, file_information, find_data,
    volume_information, CreateFileInfo, CreateStep, VolumeCaches, FILE_ATTRIBUTE_DIRECTORY,
    FILE_ATTRIBUTE_RECALL_ON_DATA_ACCESS, FILE_ATTRIBUTE_RECALL_ON_OPEN,
    FILE_ATTRIBUTE_REPARSE_POINT,
};
use androidfs::client::{
    convert_error, convert_response, read_grant, response_result, Error, STATUS_ACCESS_DENIED,
    STATUS_INTERNAL_ERROR, STATUS_INVALID_DEVICE_REQUEST, STATUS_NOT_IMPLEMENTED,
};
use androidfs::models::{FileInfo, Timestamp};
use androidfs::responses::{self, FreeSpace, Payload};

fn with_mode(mode: u32) -> FileInfo {
    FileInfo {
        creation_time: Timestamp { secs: 1, nanos: 2 },
        last_modified: Timestamp { secs: 3, nanos: 4 },
        last_accessed: Timestamp { secs: 5, nanos: 6 },
        name: "entry".to_string(),
        size: 123,
        mode,
        ino: 9,
    }
}

const RECALL: u32 = FILE_ATTRIBUTE_RECALL_ON_DATA_ACCESS | FILE_ATTRIBUTE_RECALL_ON_OPEN;

#[test]
fn backslashes_become_slashes() {
    assert_eq!(convert_file_name("\\sdcard\\DCIM\\a b.jpg"), "/sdcard/DCIM/a b.jpg");
    assert_eq!(convert_file_name("\\"), "/");
    assert_eq!(convert_file_name(""), "");
    assert_eq!(convert_file_name("\\é\\x/y"), "/é/x/y");
}

#[test]
fn attributes_follow_file_type() {
    assert_eq!(convert_attributes(&with_mode(0o40755)), RECALL | FILE_ATTRIBUTE_DIRECTORY);
    assert_eq!(
        convert_attributes(&with_mode(0o120777)),
        RECALL | FILE_ATTRIBUTE_DIRECTORY | FILE_ATTRIBUTE_REPARSE_POINT
    );
    assert_eq!(convert_attributes(&with_mode(0o100644)), RECALL);
    // A socket shares bits with both kinds but is neither.
    assert_eq!(convert_attributes(&with_mode(0o140755)), RECALL);
    assert_eq!(convert_attributes(&with_mode(0o60644)), RECALL);
    assert_eq!(RECALL, 0x440000);
}

#[test]
fn errors_map_to_status_codes() {
    assert_eq!(convert_error(Error::IOFailed), STATUS_INTERNAL_ERROR);
    assert_eq!(convert_error(Error::ReceivedInvalidData), STATUS_INTERNAL_ERROR);
    let cases = [
        (responses::Error::FileNotFound, STATUS_INVALID_DEVICE_REQUEST),
        (responses::Error::NoSuchHandle, STATUS_INVALID_DEVICE_REQUEST),
        (responses::Error::FileExists, STATUS_INVALID_DEVICE_REQUEST),
        (responses::Error::PermissionDenied, STATUS_ACCESS_DENIED),
        (responses::Error::CouldNotFindDisk, STATUS_NOT_IMPLEMENTED),
        (responses::Error::Other, STATUS_INTERNAL_ERROR),
    ];
    for (e, status) in cases {
        assert_eq!(convert_error(Error::RequestFailed(e)), status);
    }
    assert_eq!(STATUS_INVALID_DEVICE_REQUEST, 0xC0000010);
}

#[test]
fn stat_of_deleted_directory_reports_invalid_device_request() {
    let answer = response_result(Some(Err(responses::Error::FileNotFound)));
    let status = convert_response(answer.map(|_| ()));
    assert_eq!(status, Err(STATUS_INVALID_DEVICE_REQUEST));
}

#[test]
fn undecodable_answer_is_invalid_data() {
    assert!(matches!(response_result(None), Err(Error::ReceivedInvalidData)));
    assert!(matches!(response_result(Some(Ok(Payload::Number(4)))), Ok(Payload::Number(4))));
}

#[test]
fn read_of_ten_byte_file_at_three_grants_seven() {
    assert_eq!(read_grant(&Payload::Number(7), 20), Ok(7));
    assert_eq!(read_grant(&Payload::Number(21), 20), Err(Error::ReceivedInvalidData));
    assert_eq!(read_grant(&Payload::Unit, 20), Err(Error::ReceivedInvalidData));
}

#[test]
fn open_of_directory_and_file() {
    assert!(matches!(create_file_start(1), CreateStep::Stat));
    assert!(matches!(create_file_start(3), CreateStep::Stat));
    let dir = CreateFileInfo { context: 0, is_dir: true, new_file_created: true };
    match create_file_start(2) {
        CreateStep::Done(Ok(info)) => assert_eq!(info, dir),
        _ => panic!("other dispositions answer like a directory"),
    }
    match create_file_after_stat(&Ok(with_mode(0o40700))) {
        CreateStep::Done(Ok(info)) => assert_eq!(info, dir),
        _ => panic!("a directory is not opened"),
    }
    assert!(matches!(create_file_after_stat(&Ok(with_mode(0o100644))), CreateStep::Open));
    assert!(matches!(
        create_file_after_stat(&Err(STATUS_ACCESS_DENIED)),
        CreateStep::Done(Err(STATUS_ACCESS_DENIED))
    ));
    assert_eq!(
        create_file_after_open(Ok(99)),
        Ok(CreateFileInfo { context: 99, is_dir: false, new_file_created: false })
    );
    assert_eq!(create_file_after_open(Err(STATUS_INTERNAL_ERROR)), Err(STATUS_INTERNAL_ERROR));
    assert!(!close_needs_device(0));
    assert!(close_needs_device(5));
}

#[test]
fn file_information_and_listing_entries() {
    let f = with_mode(0o40755);
    let info = file_information(&f);
    assert_eq!(info.attributes, RECALL | FILE_ATTRIBUTE_DIRECTORY);
    assert_eq!(info.creation_time, Timestamp { secs: 1, nanos: 2 });
    assert_eq!(info.last_write_time, Timestamp { secs: 3, nanos: 4 });
    assert_eq!(info.last_access_time, Timestamp { secs: 5, nanos: 6 });
    assert_eq!(info.file_size, 123);
    assert_eq!(info.number_of_links, 0);
    assert_eq!(info.file_index, 9);
    let entry = find_data(&f);
    assert_eq!(entry.file_name, "entry");
    assert_eq!(entry.file_size, 123);
}

#[test]
fn volume_and_disk_space() {
    let v = volume_information(&"ABC123".to_string());
    assert_eq!(v.name, "ABC123");
    assert_eq!(v.fs_name, "NTFS");
    assert_eq!(v.max_component_length, 4095);
    assert_eq!(v.serial_number, 0);
    assert_eq!(v.fs_flags, 0x1 | 0x2 | 0x4 | 0x8 | 0x40000);
    let d = disk_space_info(FreeSpace { total_bytes: 100, free_bytes: 40 });
    assert_eq!((d.byte_count, d.free_byte_count, d.available_byte_count), (100, 40, 40));
}

#[test]
fn listing_cache_hit_within_a_second() {
    let mut caches = VolumeCaches::new();
    let listing: Result<Vec<FileInfo>, u32> = Ok(vec![with_mode(0o100644)]);
    caches.directory_cache.put("/".to_string(), listing, 10_000);
    assert!(caches.directory_cache.try_get(&"/".to_string(), 10_999).is_some());
    assert!(caches.directory_cache.try_get(&"/".to_string(), 11_000).is_none());
    caches.stat_cache.put("/x".to_string(), Err(STATUS_INVALID_DEVICE_REQUEST), 0);
    assert!(matches!(
        caches.stat_cache.try_get(&"/x".to_string(), 999_999),
        Some(Err(STATUS_INVALID_DEVICE_REQUEST))
    ));
}

#[test]
fn delete_forgets_cached_path() {
    let mut caches = VolumeCaches::new();
    caches.stat_cache.put("/a/b".to_string(), Ok(with_mode(0o40755)), 0);
    caches.directory_cache.put("/a/b".to_string(), Ok(Vec::new()), 0);
    caches.stat_cache.put("/a".to_string(), Ok(with_mode(0o40755)), 0);
    caches.forget(&"/a/b".to_string());
    assert!(caches.stat_cache.try_get(&"/a/b".to_string(), 1).is_none());
    assert!(caches.directory_cache.try_get(&"/a/b".to_string(), 1).is_none());
    assert!(caches.stat_cache.try_get(&"/a".to_string(), 1).is_some());
}

#[test]
fn failed_delete_keeps_cache() {
    let mut caches = VolumeCaches::new();
    caches.stat_cache.put("/a/b".to_string(), Ok(with_mode(0o100644)), 0);
    caches.after_delete(&"/a/b".to_string(), &Err(STATUS_ACCESS_DENIED));
    assert!(caches.stat_cache.try_get(&"/a/b".to_string(), 1).is_some());
    caches.after_delete(&"/a/b".to_string(), &Ok(()));
    assert!(caches.stat_cache.try_get(&"/a/b".to_string(), 1).is_none());
}
