use androidfs::daemon::{length_readable, shared_storage_space, to_response_error, DiskInfo, HandleTable};
use androidfs::models::{unwrap_or_epoch, Timestamp};
use androidfs::responses::{Error, FreeSpace};

#[test]
fn read_length_is_bounded_by_file_and_buffer() {
    assert_eq!(length_readable(10, 3, 20), 7);
    assert_eq!(length_readable(10, 3, 4), 4);
    assert_eq!(length_readable(10, 10, 5), 0);
    assert_eq!(length_readable(10, 12, 5), 0);
    assert_eq!(length_readable(0, 0, 0), 0);
    assert_eq!(length_readable(u64::MAX, 0, u64::MAX), u32::MAX);
}

#[test]
fn read_after_write_and_resize_gets_everything() {
    let offset = 4096u64;
    let data_len = 300u64;
    assert_eq!(length_readable(offset + data_len, offset, data_len), 300);
}

#[test]
fn os_errors_map_to_wire_errors() {
    assert_eq!(to_response_error(Some(2)), Error::FileNotFound);
    assert_eq!(to_response_error(Some(13)), Error::PermissionDenied);
    assert_eq!(to_response_error(Some(5)), Error::Other);
    assert_eq!(to_response_error(None), Error::Other);
}

#[test]
fn missing_times_become_epoch() {
    let t = Timestamp { secs: 12, nanos: 34 };
    assert_eq!(unwrap_or_epoch::<()>(Ok(t)), t);
    assert_eq!(unwrap_or_epoch(Err("unsupported")), Timestamp::epoch());
    assert_eq!(Timestamp::epoch(), Timestamp { secs: 0, nanos: 0 });
}

#[test]
fn open_handles_are_unique_and_nonzero() {
    let mut table: HandleTable<u32> = HandleTable::new();
    let mut handles = Vec::new();
    for i in 0..200u32 {
        let h = table.open(i).ok().expect("a free handle");
        assert_ne!(h, 0);
        assert!(!handles.contains(&h));
        handles.push(h);
    }
    for (i, h) in handles.iter().enumerate() {
        assert_eq!(table.get(*h).ok(), Some(&(i as u32)));
    }
    let first = handles[0];
    assert_eq!(table.close(first).ok(), Some(0));
    assert!(matches!(table.close(first), Err(Error::NoSuchHandle)));
    assert!(matches!(table.get(first), Err(Error::NoSuchHandle)));
    assert!(matches!(table.get(0), Err(Error::NoSuchHandle)));
}

#[test]
fn chosen_handle_must_be_free() {
    let mut table: HandleTable<&str> = HandleTable::new();
    assert_eq!(table.insert_with(7, "a").ok(), Some(7));
    assert_eq!(table.insert_with(7, "b").err(), Some("b"));
    assert_eq!(table.insert_with(0, "c").err(), Some("c"));
}

#[test]
fn free_space_of_shared_storage() {
    let disks = vec![
        DiskInfo { mount_point: "/".to_string(), total_space: 1, available_space: 1 },
        DiskInfo { mount_point: "/storage/emulated".to_string(), total_space: 100, available_space: 30 },
    ];
    assert_eq!(
        shared_storage_space(&disks),
        Ok(FreeSpace { total_bytes: 100, free_bytes: 30 })
    );
    assert_eq!(shared_storage_space(&disks[..1].iter().map(|d| DiskInfo {
        mount_point: d.mount_point.clone(),
        total_space: d.total_space,
        available_space: d.available_space,
    }).collect()), Err(Error::CouldNotFindDisk));
}

#[test]
fn open_on_crowded_table_still_finds_a_handle() {
    let mut table: HandleTable<u32> = HandleTable::new();
    for h in 1..=1000u32 {
        assert_eq!(table.insert_with(h, h).ok(), Some(h));
    }
    let h = table.open(0).ok().expect("a free handle");
    assert!(h > 1000);
}
