use glacier::system::{
    command, derive_partitions, field, list_disks, list_interfaces, list_networks, lsblk_command,
    parse_disks, parse_interfaces, parse_networks, run_outcome, RunResult,
};

#[test]
fn partitions_of_a_disk_with_a_letter_at_its_end() {
    assert_eq!(
        derive_partitions("/dev/sda"),
        ("/dev/sda1".to_string(), "/dev/sda2".to_string())
    );
}

#[test]
fn partitions_of_a_disk_with_a_digit_at_its_end() {
    assert_eq!(
        derive_partitions("/dev/nvme0n1"),
        ("/dev/nvme0n1p1".to_string(), "/dev/nvme0n1p2".to_string())
    );
    assert_eq!(
        derive_partitions("/dev/mmcblk0"),
        ("/dev/mmcblk0p1".to_string(), "/dev/mmcblk0p2".to_string())
    );
}

#[test]
fn partitions_of_no_disk() {
    assert_eq!(derive_partitions(""), ("1".to_string(), "2".to_string()));
    assert_eq!(derive_partitions("٣"), ("٣1".to_string(), "٣2".to_string()));
}

#[test]
fn partitions_are_two_and_start_with_the_disk() {
    for disk in ["/dev/sda", "/dev/nvme0n1", "", "9"] {
        let (first, second) = derive_partitions(disk);
        assert_ne!(first, second);
        assert!(first.starts_with(disk) && second.starts_with(disk));
    }
}

#[test]
fn disks_are_listed_with_label_and_device() {
    let disks = parse_disks("/dev/sda 465.8G Samsung SSD\n /dev/odd 1G\n\n/dev/nvme0n1   1T\n");
    let found: Vec<(&str, &str)> =
        disks.iter().map(|d| (d.label.as_str(), d.device.as_str())).collect();
    assert_eq!(
        found,
        vec![
            ("/dev/sda 465.8G Samsung SSD", "/dev/sda"),
            ("/dev/nvme0n1   1T", "/dev/nvme0n1"),
        ]
    );
}

#[test]
fn disks_are_none_where_the_command_fails() {
    assert!(list_disks(None).is_empty());
    assert!(list_disks(Some((false, b"/dev/sda 1G".to_vec()))).is_empty());
    assert_eq!(list_disks(Some((true, b"/dev/sda 1G ".to_vec())))[0].label, "/dev/sda 1G");
}

#[test]
fn a_device_that_is_offered_has_a_path_without_spaces() {
    for disk in parse_disks("/dev/sda 1G\nb\n  c\n") {
        assert!(!disk.device.is_empty() && !disk.device.contains(' '));
    }
}

#[test]
fn the_command_that_lists_disks() {
    let c = lsblk_command();
    assert_eq!(c.program, "lsblk");
    assert_eq!(c.args, vec!["-dpno", "NAME,SIZE,MODEL", "--exclude", "7"]);
}

#[test]
fn interfaces_are_those_of_type_ethernet() {
    assert_eq!(
        parse_interfaces("eth0:ethernet\nwlan0:wifi\nenp3s0:ethernet\nlo:loopback\n"),
        vec!["eth0", "enp3s0"]
    );
    assert!(list_interfaces(&Vec::new()).is_empty());
    assert_eq!(list_interfaces(&b"a:b:ethernet".to_vec()), vec!["a"]);
}

#[test]
fn networks_are_listed_once() {
    assert_eq!(
        parse_networks("home\n\n--\ncafé\nhome\n   \n-- \n home\n"),
        vec!["home", "café", "-- ", " home"]
    );
    assert!(list_networks(&b"--\n".to_vec()).is_empty());
}

#[test]
fn bytes_that_are_not_text_are_marked() {
    assert_eq!(list_networks(&vec![b'a', 0xff, b'b']), vec!["a\u{fffd}b"]);
    assert_eq!(list_interfaces(&vec![0xfe, b':', b'e', b't', b'h', b'e', b'r', b'n', b'e', b't']),
        vec!["\u{fffd}"]);
    let failed = RunResult::Exited { success: false, stderr: vec![b' ', 0xc3, b'\n'] };
    assert_eq!(run_outcome("mount", &failed), Err("\u{fffd}".to_string()));
}

#[test]
fn a_run_that_exits_well_is_a_success() {
    let result = RunResult::Exited { success: true, stderr: b"a warning".to_vec() };
    assert_eq!(run_outcome("mount", &result), Ok(()));
}

#[test]
fn a_run_that_fails_tells_its_standard_error() {
    let result = RunResult::Exited { success: false, stderr: b"\n  no such device \n".to_vec() };
    assert_eq!(run_outcome("mount", &result), Err("no such device".to_string()));
}

#[test]
fn a_run_that_does_not_start_tells_why() {
    let result = RunResult::NotStarted("not found".to_string());
    assert_eq!(run_outcome("mkfs.xfs", &result), Err("failed to run mkfs.xfs: not found".to_string()));
}

#[test]
fn the_first_field_ends_at_the_separator() {
    assert_eq!(field("a:b:c", ':'), "a");
    assert_eq!(field("abc", ':'), "abc");
    assert_eq!(field(":abc", ':'), "");
}

#[test]
fn a_command_keeps_its_arguments() {
    let c = command("mount", vec!["-L", "nixos", "/mnt"]);
    assert_eq!(c.program, "mount");
    assert_eq!(c.args, vec!["-L", "nixos", "/mnt"]);
}
