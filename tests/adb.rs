use androidfs::adb::{shell_args, CommandOutput, DebugBridge, ErrorKind};

fn bridge() -> DebugBridge {
    DebugBridge { adb_path: "adb.exe".to_string() }
}

fn output(code: Option<i32>, stdout: &str) -> CommandOutput {
    CommandOutput { status_code: code, stdout: stdout.as_bytes().to_vec(), stderr: Vec::new() }
}

fn serials(out: CommandOutput) -> Vec<String> {
    match bridge().get_devices(out) {
        Ok(ds) => ds.into_iter().map(|d| d.serial_number).collect(),
        Err(_) => panic!("expected devices"),
    }
}

#[test]
fn lists_one_device() {
    let out = output(Some(0), "List of devices attached\nABC123\tdevice\n\n");
    assert_eq!(serials(out), vec!["ABC123".to_string()]);
}

#[test]
fn lists_devices_with_crlf_and_skips_others() {
    let out = output(
        Some(0),
        "List of devices attached\r\nABC123\tdevice\r\nXYZ\tunauthorized\r\nemulator-5554 device",
    );
    assert_eq!(serials(out), vec!["ABC123".to_string(), "emulator-5554".to_string()]);
}

#[test]
fn empty_listing_has_no_devices() {
    assert!(serials(output(Some(0), "")).is_empty());
    assert!(serials(output(Some(0), "List of devices attached\n\n")).is_empty());
}

#[test]
fn device_word_without_serial_fails() {
    match bridge().get_devices(output(Some(0), "List of devices attached\n  device\n")) {
        Err(e) => assert_eq!(e.kind, ErrorKind::ParseFailure),
        Ok(_) => panic!("expected a parse failure"),
    }
}

#[test]
fn failed_command_is_an_error() {
    match bridge().get_devices(output(Some(1), "ABC123\tdevice\n")) {
        Err(e) => {
            assert_eq!(e.kind, ErrorKind::NonSuccessExitCode);
            assert_eq!(e.output.status_code, Some(1));
        }
        Ok(_) => panic!("expected an exit code failure"),
    }
    match bridge().get_devices(output(None, "")) {
        Err(e) => assert_eq!(e.kind, ErrorKind::NonSuccessExitCode),
        Ok(_) => panic!("expected an exit code failure"),
    }
}

#[test]
fn invalid_utf8_serial_is_replaced() {
    let out = CommandOutput {
        status_code: Some(0),
        stdout: vec![b'A', 0xFF, b'\t', b'd', b'e', b'v', b'i', b'c', b'e'],
        stderr: Vec::new(),
    };
    assert_eq!(serials(out), vec!["A\u{FFFD}".to_string()]);
}

#[test]
fn device_commands_select_the_device() {
    let devices = bridge()
        .get_devices(output(Some(0), "ABC123\tdevice\n"))
        .ok()
        .expect("one device");
    assert_eq!(devices[0].debug_bridge.adb_path, "adb.exe");
    let args = devices[0].command_args(vec!["forward".to_string(), "tcp:15000".to_string()]);
    assert_eq!(args, vec!["-s", "ABC123", "forward", "tcp:15000"]);
    let shell = shell_args(vec!["chmod".to_string(), "555".to_string()]);
    assert_eq!(shell, vec!["shell", "chmod", "555"]);
}

#[test]
fn errors_carry_the_command_output() {
    match bridge().get_devices(output(Some(3), "boom")) {
        Err(e) => assert_eq!(e.output.stdout, b"boom".to_vec()),
        Ok(_) => panic!("expected an exit code failure"),
    }
    match bridge().get_devices(output(Some(0), "device\n")) {
        Err(e) => {
            assert_eq!(e.kind, ErrorKind::ParseFailure);
            assert_eq!(e.output.stdout, b"device\n".to_vec());
            assert_eq!(e.output.status_code, Some(0));
        }
        Ok(_) => panic!("expected a parse failure"),
    }
}

#[test]
fn unicode_white_space_separates_tokens() {
    let out = output(Some(0), "ABC\u{a0}device\nXY\u{3000}Z device\n");
    assert_eq!(serials(out), vec!["ABC".to_string(), "XY".to_string()]);
}

#[test]
fn device_must_be_a_whole_last_token() {
    assert!(serials(output(Some(0), "ABCdevice\n")).is_empty());
    assert!(serials(output(Some(0), "ABC device extra\n")).is_empty());
    assert_eq!(serials(output(Some(0), "ABC\tdevice  \n")), vec!["ABC".to_string()]);
    match bridge().get_devices(output(Some(0), "device ")) {
        Err(e) => assert_eq!(e.kind, ErrorKind::ParseFailure),
        Ok(_) => panic!("expected a parse failure"),
    }
}
