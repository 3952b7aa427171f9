use scrcpy_gui::parse_devices;

#[test]
fn listing_with_device_lines_yields_one_record_each() {
    let out = "List of devices attached\n\
               emulator-5554\tdevice product:sdk model:Pixel_7 device:panther\n\
               192.168.1.20:5555\tdevice model:Galaxy_S21\n";
    let devices = parse_devices(out);
    assert_eq!(devices.len(), 2);
    assert_eq!(devices[0].id, "emulator-5554");
    assert_eq!(devices[0].name, "Pixel 7");
    assert_eq!(devices[0].status, "device");
    assert_eq!(devices[1].id, "192.168.1.20:5555");
    assert_eq!(devices[1].name, "Galaxy S21");
    assert_eq!(devices[1].status, "device");
}

#[test]
fn name_falls_back_to_identifier_without_model_token() {
    let out = "List of devices attached\nabc123 device\n";
    let devices = parse_devices(out);
    assert_eq!(devices.len(), 1);
    assert_eq!(devices[0].id, "abc123");
    assert_eq!(devices[0].name, "abc123");
}

#[test]
fn unauthorized_and_offline_lines_are_excluded() {
    let out = "List of devices attached\n\
               abc123 unauthorized\n\
               def456 offline\n\
               ghi789 device\n";
    let devices = parse_devices(out);
    assert_eq!(devices.len(), 1);
    assert_eq!(devices[0].id, "ghi789");
}

#[test]
fn blank_lines_and_header_are_skipped() {
    let out = "header that mentions device words\n\n   \nabc123 device\n\n";
    let devices = parse_devices(out);
    assert_eq!(devices.len(), 1);
    assert_eq!(devices[0].id, "abc123");
}

#[test]
fn header_alone_yields_nothing() {
    assert_eq!(parse_devices("List of devices attached\n").len(), 0);
    assert_eq!(parse_devices("List of devices attached").len(), 0);
    assert_eq!(parse_devices("").len(), 0);
}

#[test]
fn single_token_lines_are_skipped() {
    let out = "List of devices attached\nlonelytoken\nabc123 device\n";
    let devices = parse_devices(out);
    assert_eq!(devices.len(), 1);
    assert_eq!(devices[0].id, "abc123");
}

#[test]
fn carriage_returns_are_stripped_from_line_ends() {
    let out = "List of devices attached\r\nabc123 device\r\n";
    let devices = parse_devices(out);
    assert_eq!(devices.len(), 1);
    assert_eq!(devices[0].id, "abc123");
    assert_eq!(devices[0].status, "device");
}

#[test]
fn first_line_is_never_a_device_entry() {
    let out = "abc123 device\ndef456 device\n";
    let devices = parse_devices(out);
    assert_eq!(devices.len(), 1);
    assert_eq!(devices[0].id, "def456");
}

#[test]
fn model_underscores_become_spaces() {
    let out = "h\nid1 device model:My_Long_Device_Name\n";
    let devices = parse_devices(out);
    assert_eq!(devices.len(), 1);
    assert_eq!(devices[0].name, "My Long Device Name");
}
