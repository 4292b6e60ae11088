use androidfs::supervisor::{after_forward, PortStep};
use androidfs::adb::{CommandOutput, DebugBridge};
use androidfs::supervisor::{choose_mount_point, mount_point_letters, next_port, ActiveDevices, BASE_PORT, MAX_PORT};

#[test]
fn ports_run_through_the_range() {
    assert_eq!(BASE_PORT, 15000);
    assert_eq!(next_port(15000), Some(15001));
    assert_eq!(next_port(15999), Some(16000));
    assert_eq!(next_port(MAX_PORT), None);
}

#[test]
fn first_free_drive_in_preference_order() {
    let letters = mount_point_letters();
    assert_eq!(letters.len(), 23);
    assert_eq!(letters[0], 'Q');
    assert_eq!(letters[10], 'D');
    assert_eq!(letters[22], 'P');
    assert_eq!(choose_mount_point(&vec![false; 23]), Some(0));
    let mut taken = vec![true; 23];
    taken[11] = false;
    assert_eq!(choose_mount_point(&taken), Some(11));
    assert_eq!(choose_mount_point(&vec![true; 23]), None);
}

#[test]
fn mounted_device_is_not_set_up_again() {
    let bridge = DebugBridge { adb_path: "adb".to_string() };
    let out = || CommandOutput {
        status_code: Some(0),
        stdout: b"List of devices attached\nABC123\tdevice\n".to_vec(),
        stderr: Vec::new(),
    };
    let mut active = ActiveDevices::new();
    let devices = bridge.get_devices(out()).ok().expect("devices");
    assert_eq!(active.to_mount(&devices), vec![0]);
    assert_eq!(letters_for(&[false; 23]), 'Q');
    active.insert(devices[0].serial_number.clone());
    assert!(active.contains(&"ABC123".to_string()));
    let again = bridge.get_devices(out()).ok().expect("devices");
    assert!(active.to_mount(&again).is_empty());
    // After a disconnect the device is set up again.
    active.remove(&"ABC123".to_string());
    assert!(!active.contains(&"ABC123".to_string()));
    assert_eq!(active.to_mount(&again), vec![0]);
}

fn letters_for(in_use: &[bool]) -> char {
    let i = choose_mount_point(&in_use.to_vec()).expect("a free drive");
    mount_point_letters()[i]
}

#[test]
fn port_search_keeps_first_working_port() {
    assert_eq!(after_forward(15000, true), PortStep::Bound(15000));
    assert_eq!(after_forward(15000, false), PortStep::Try(15001));
    assert_eq!(after_forward(16000, false), PortStep::Exhausted);
    assert_eq!(after_forward(16000, true), PortStep::Bound(16000));
}
