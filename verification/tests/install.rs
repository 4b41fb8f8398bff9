use glacier::flow::{Outcome, Reply, Request, Turn};
use glacier::install::Installer;
use glacier::partition::partition_plan;
use glacier::plan::{judge, PlanStep, Verdict};
use glacier::style::Span;
use glacier::system::{Command, RunResult};

fn text(spans: &[Span]) -> String {
    spans.iter().map(|s| s.text.as_str()).collect()
}

fn lines(turn: &Turn) -> Vec<String> {
    turn.lines.iter().map(|l| text(&l.spans)).collect()
}

fn shell(c: &Command) -> String {
    format!("{} {}", c.program, c.args.join(" "))
}

fn ok() -> Reply {
    Reply::Ran(RunResult::Exited { success: true, stderr: Vec::new() })
}

fn output(stdout: &str) -> Reply {
    Reply::Output { success: true, stdout: stdout.as_bytes().to_vec() }
}

/// The installer after the questions before the confirmation, on an ethernet
/// network and with one disk.
fn to_the_warning(firmware: usize) -> (Installer, Turn) {
    let (mut installer, _) = Installer::new();
    installer.step(Reply::Choice(Some(firmware)));
    installer.step(Reply::Choice(Some(0)));
    installer.step(output("eth0:ethernet\nlo:loopback\n"));
    installer.step(Reply::Choice(Some(0)));
    installer.step(ok());
    installer.step(output("/dev/nvme0n1 1T disk\n"));
    installer.step(Reply::Choice(Some(0)));
    let turn = installer.step(Reply::Choice(Some(1)));
    (installer, turn)
}

/// The commands that are run from here on, each of them well, and the first turn
/// that asks for something else.
fn run_all(installer: &mut Installer, first: Turn) -> (Vec<String>, Turn) {
    let mut commands = Vec::new();
    let mut turn = first;
    loop {
        match &turn.request {
            Request::Run { command, .. } => {
                commands.push(shell(command));
                turn = installer.step(ok());
            }
            Request::Settle { command, pause_ms, .. } => {
                commands.push(format!("{} ({} ms)", shell(command), pause_ms));
                turn = installer.step(Reply::Done);
            }
            _ => return (commands, turn),
        }
    }
}

/// The installer where it asks for the first file, and that turn.
fn to_the_files(firmware: usize) -> (Installer, Turn) {
    let (mut installer, _) = to_the_warning(firmware);
    let first = installer.step(Reply::Confirmed(true));
    let (_, turn) = run_all(&mut installer, first);
    assert!(matches!(&turn.request, Request::CreateDir(d) if d == "/mnt/glacier"));
    let turn = installer.step(Reply::Done);
    assert!(matches!(&turn.request, Request::CreateDir(d) if d == "/mnt/glacier/hosts"));
    installer.step(Reply::Done);
    installer.step(Reply::Text(Some("box".to_string())));
    let mut turn = installer.step(Reply::Text(None));
    for i in 2..13 {
        turn = installer.step(if i < 4 { Reply::Text(None) } else { Reply::Choice(None) });
    }
    (installer, turn)
}

#[test]
fn the_installer_starts_with_the_firmware() {
    let (mut installer, turn) = Installer::new();
    assert_eq!(lines(&turn), vec!["🏔️  Glacier OS Installer\n"]);
    match &turn.request {
        Request::Select { prompt, options } => {
            assert_eq!(prompt, "Firmware type");
            assert_eq!(options, &vec!["UEFI", "BIOS/Legacy"]);
        }
        other => panic!("{:?}", other),
    }
    let turn = installer.step(Reply::Choice(None));
    assert_eq!(lines(&turn), vec!["\n── Network ──────────────────────────────"]);
    assert!(matches!(&turn.request, Request::Select { options, .. } if options == &vec!["Ethernet", "Wi-Fi"]));
}

#[test]
fn an_ethernet_interface_is_chosen_among_those_found() {
    let (mut installer, _) = Installer::new();
    installer.step(Reply::Choice(Some(0)));
    let turn = installer.step(Reply::Choice(Some(0)));
    assert!(matches!(&turn.request, Request::Capture(c) if shell(c) == "nmcli -t -f DEVICE,TYPE device"));
    let turn = installer.step(output("wlan0:wifi\neth0:ethernet\neth1:ethernet\n"));
    assert!(matches!(&turn.request, Request::Select { options, .. } if options == &vec!["eth0", "eth1"]));
    let turn = installer.step(Reply::Choice(Some(1)));
    match &turn.request {
        Request::Run { message, command } => {
            assert_eq!(text(message), "Connecting via eth1...");
            assert_eq!(shell(command), "nmcli device connect eth1");
        }
        other => panic!("{:?}", other),
    }
}

#[test]
fn an_interface_is_typed_where_none_is_found() {
    let (mut installer, _) = Installer::new();
    installer.step(Reply::Choice(Some(0)));
    installer.step(Reply::Choice(Some(0)));
    let turn = installer.step(output(""));
    assert!(matches!(&turn.request,
        Request::Input { prompt, default } if prompt == "Ethernet interface (e.g. eth0)" && default == "eth0"));
    let turn = installer.step(Reply::Text(None));
    assert!(matches!(&turn.request, Request::Run { command, .. } if shell(command) == "nmcli device connect eth0"));
}

#[test]
fn a_wireless_network_is_scanned_for_and_joined() {
    let (mut installer, _) = Installer::new();
    installer.step(Reply::Choice(Some(0)));
    let turn = installer.step(Reply::Choice(Some(1)));
    match &turn.request {
        Request::Settle { message, command, pause_ms } => {
            assert_eq!(text(message), "Scanning for Wi-Fi networks...");
            assert_eq!(shell(command), "nmcli device wifi rescan");
            assert_eq!(*pause_ms, 2000);
        }
        other => panic!("{:?}", other),
    }
    let turn = installer.step(Reply::Done);
    assert!(matches!(&turn.request, Request::Capture(c) if shell(c) == "nmcli -t -f SSID device wifi list"));
    let turn = installer.step(output("home\n--\nhome\ncafé\n"));
    assert!(matches!(&turn.request, Request::Select { options, .. } if options == &vec!["home", "café"]));
    let turn = installer.step(Reply::Choice(Some(1)));
    assert!(matches!(&turn.request, Request::Secret { prompt } if prompt == "Wi-Fi password"));
    let turn = installer.step(Reply::Secret("".to_string()));
    match &turn.request {
        Request::Run { message, command } => {
            assert_eq!(text(message), "Connecting to café...");
            assert_eq!(command.args, vec!["device", "wifi", "connect", "café", "password", ""]);
        }
        other => panic!("{:?}", other),
    }
    let turn = installer.step(Reply::Ran(RunResult::Exited { success: false, stderr: b"no key\n".to_vec() }));
    assert!(matches!(&turn.request, Request::End(Outcome::Failed(e)) if e == "Wi-Fi error: no key"));
}

#[test]
fn a_network_is_typed_where_none_is_found() {
    let (mut installer, _) = Installer::new();
    installer.step(Reply::Choice(Some(0)));
    installer.step(Reply::Choice(Some(1)));
    installer.step(Reply::Done);
    let turn = installer.step(output("--\n"));
    assert!(matches!(&turn.request,
        Request::Input { prompt, default } if prompt == "Wi-Fi SSID" && default.is_empty()));
    installer.step(Reply::Text(Some("hidden".to_string())));
    let turn = installer.step(Reply::Failed);
    assert!(matches!(turn.request, Request::End(Outcome::Broken)));
}

#[test]
fn a_network_that_cannot_be_joined_ends_the_installation() {
    let (mut installer, _) = Installer::new();
    installer.step(Reply::Choice(Some(0)));
    installer.step(Reply::Choice(Some(0)));
    installer.step(output(""));
    installer.step(Reply::Text(None));
    let turn = installer.step(Reply::Ran(RunResult::NotStarted("gone".to_string())));
    assert!(matches!(&turn.request,
        Request::End(Outcome::Failed(e)) if e == "Network error: failed to run nmcli: gone"));
}

#[test]
fn a_disk_is_typed_where_none_is_listed() {
    let (mut installer, _) = Installer::new();
    installer.step(Reply::Choice(Some(0)));
    installer.step(Reply::Choice(Some(0)));
    installer.step(output(""));
    installer.step(Reply::Text(None));
    let turn = installer.step(ok());
    assert_eq!(
        lines(&turn),
        vec!["  ✔ Network connected.", "\n── Disk ─────────────────────────────────"]
    );
    let turn = installer.step(Reply::Failed);
    assert!(matches!(&turn.request, Request::Input { default, .. } if default == "/dev/sda"));
    let turn = installer.step(Reply::Text(None));
    assert!(matches!(&turn.request, Request::Select { options, .. } if options == &vec!["ext4", "btrfs", "xfs"]));
}

#[test]
fn the_warning_names_the_disk() {
    let (_, turn) = to_the_warning(0);
    assert_eq!(lines(&turn), vec!["\n  ⚠ This will ERASE ALL DATA on /dev/nvme0n1!"]);
    assert!(matches!(&turn.request,
        Request::Confirm { prompt } if prompt == "Are you sure you want to continue?"));
}

#[test]
fn without_a_yes_nothing_is_erased() {
    let (mut installer, _) = to_the_warning(0);
    let turn = installer.step(Reply::Confirmed(false));
    assert_eq!(lines(&turn), vec!["Installation aborted."]);
    assert!(matches!(turn.request, Request::End(Outcome::Done)));
    let (mut installer, _) = to_the_warning(0);
    let turn = installer.step(Reply::Failed);
    assert!(matches!(turn.request, Request::End(Outcome::Broken)));
    let turn = installer.step(Reply::Confirmed(true));
    assert!(matches!(turn.request, Request::End(Outcome::Broken)));
}

#[test]
fn a_disk_of_a_machine_with_uefi_is_made_ready() {
    let (mut installer, _) = to_the_warning(0);
    let first = installer.step(Reply::Confirmed(true));
    assert_eq!(lines(&first), vec!["\n── Partitioning ─────────────────────────"]);
    let (commands, turn) = run_all(&mut installer, first);
    assert_eq!(
        commands,
        vec![
            "sgdisk --zap-all /dev/nvme0n1",
            "sgdisk -n 1:0:+512M -t 1:EF00 -c 1:EFI System /dev/nvme0n1",
            "sgdisk -n 2:0:0 -t 2:8304 -c 2:Linux Root (x86-64) /dev/nvme0n1",
            "partprobe /dev/nvme0n1 (500 ms)",
            "mkfs.fat -F 32 -n BOOT /dev/nvme0n1p1",
            "mkfs.btrfs -L nixos /dev/nvme0n1p2",
            "mount -L nixos /mnt",
            "mkdir -p /mnt/boot",
            "mount -L BOOT /mnt/boot",
            "nixos-generate-config --root /mnt",
        ]
    );
    assert_eq!(
        lines(&turn),
        vec![
            "  ✔ Hardware configuration generated.",
            "\n── Glacier Configuration ────────────────",
            "  → Setting up your Glacier configuration...",
        ]
    );
}

#[test]
fn a_disk_of_a_machine_with_legacy_firmware_is_made_ready() {
    let (mut installer, _) = to_the_warning(1);
    let first = installer.step(Reply::Confirmed(true));
    let (commands, _) = run_all(&mut installer, first);
    assert_eq!(
        commands,
        vec![
            "sgdisk --zap-all /dev/nvme0n1",
            "sgdisk -n 1:0:0 -t 1:8300 -c 1:Linux Root /dev/nvme0n1",
            "partprobe /dev/nvme0n1 (500 ms)",
            "mkfs.btrfs -L nixos /dev/nvme0n1p1",
            "mount -L nixos /mnt",
            "nixos-generate-config --root /mnt",
        ]
    );
}

#[test]
fn a_step_that_fails_ends_the_installation() {
    let failures = [
        "sgdisk zap failed",
        "sgdisk EFI partition failed",
        "sgdisk root partition failed",
        "",
        "mkfs.fat failed",
        "mkfs failed",
        "mount root failed",
        "mkdir boot failed",
        "mount boot failed",
        "nixos-generate-config failed",
    ];
    for (k, failure) in failures.iter().enumerate() {
        let (mut installer, _) = to_the_warning(0);
        installer.step(Reply::Confirmed(true));
        for i in 0..k {
            installer.step(if i == 3 { Reply::Done } else { ok() });
        }
        if failure.is_empty() {
            continue;
        }
        let turn = installer.step(Reply::Ran(RunResult::Exited { success: false, stderr: b" busy ".to_vec() }));
        match &turn.request {
            Request::End(Outcome::Failed(e)) => assert_eq!(e, &format!("{}: busy", failure)),
            other => panic!("{:?}", other),
        }
    }
}

#[test]
fn messages_of_the_plan() {
    let messages: Vec<String> = partition_plan(true, "/dev/sda", "ext4")
        .iter()
        .map(|step| match step {
            PlanStep::Run { message, .. } => text(message),
            PlanStep::Settle { .. } => "-".to_string(),
        })
        .collect();
    assert_eq!(
        messages,
        vec![
            "Writing GPT partition table on /dev/sda...",
            "Creating EFI System Partition (512 MiB)...",
            "Creating Linux root partition (ext4)...",
            "-",
            "Formatting EFI partition as FAT32...",
            "Formatting root partition as ext4...",
            "Mounting root partition at /mnt...",
            "Creating /mnt/boot...",
            "Mounting EFI partition at /mnt/boot...",
        ]
    );
    match &partition_plan(false, "/dev/sda", "xfs")[0] {
        PlanStep::Run { message, .. } => {
            assert_eq!(text(message), "Writing MBR partition table on /dev/sda...")
        }
        other => panic!("{:?}", other),
    }
}

#[test]
fn a_pause_is_followed_by_the_next_step_however_it_ends() {
    let plan = partition_plan(false, "/dev/sda", "xfs");
    assert!(matches!(judge(&plan[2], &Reply::Failed), Verdict::Next));
    assert!(matches!(judge(&plan[0], &Reply::Done), Verdict::Broken));
    assert!(matches!(judge(&plan[0], &ok()), Verdict::Next));
}

#[test]
fn the_files_are_written_and_the_system_installed() {
    let (mut installer, turn) = to_the_files(0);
    match &turn.request {
        Request::WriteFile { path, contents } => {
            assert_eq!(path, "/mnt/glacier/flake.nix");
            assert!(contents.contains("      box = nixpkgs.lib.nixosSystem {"));
        }
        other => panic!("{:?}", other),
    }
    let turn = installer.step(Reply::Done);
    assert!(matches!(&turn.request, Request::WriteFile { path, .. } if path == "/mnt/glacier/configuration.nix"));
    let turn = installer.step(Reply::Done);
    assert!(matches!(&turn.request, Request::WriteFile { path, .. } if path == "/mnt/glacier/home.nix"));
    let turn = installer.step(Reply::Done);
    assert_eq!(lines(&turn), vec!["  ✔ Glacier config written."]);
    let hardware = "/mnt/etc/nixos/hardware-configuration.nix";
    assert!(matches!(&turn.request, Request::Exists(p) if p == hardware));
    let turn = installer.step(Reply::Exists(true));
    assert!(matches!(&turn.request,
        Request::Copy { from, to } if from == hardware && to == "/mnt/glacier/hosts/box.nix"));
    let turn = installer.step(Reply::Done);
    assert!(matches!(&turn.request, Request::Remove(p) if p == hardware));
    let turn = installer.step(Reply::Done);
    assert_eq!(lines(&turn), vec!["  ✔ Hardware config moved to hosts/box.nix"]);
    assert!(matches!(&turn.request, Request::Exists(p) if p == "/mnt/glacier/hosts/box.nix"));
    let turn = installer.step(Reply::Exists(true));
    assert!(matches!(&turn.request, Request::ReadFile(p) if p == "/mnt/glacier/hosts/box.nix"));
    let turn = installer.step(Reply::Contents("{\n}\n".to_string()));
    match &turn.request {
        Request::WriteFile { path, contents } => {
            assert_eq!(path, "/mnt/glacier/hosts/box.nix");
            assert!(contents.starts_with("{\n\n  boot.loader = {\n    efi = {"));
            assert!(contents.ends_with("  };\n}\n"));
        }
        other => panic!("{:?}", other),
    }
    let turn = installer.step(Reply::Done);
    assert_eq!(
        lines(&turn),
        vec!["  ✔ Boot loader config appended.", "\n── Installing ───────────────────────────"]
    );
    assert!(matches!(&turn.request,
        Request::Install { target, dir } if target == ".#box" && dir == "/mnt/glacier"));
    let turn = installer.step(Reply::Installed(true));
    assert_eq!(lines(&turn), vec!["\n✨ NixOS installed successfully! (box)", ""]);
    assert!(matches!(&turn.request,
        Request::Select { options, .. } if options == &vec!["Reboot", "Drop to shell", "Shutdown"]));
}

/// The installer where it has asked for the installation.
fn to_the_installation() -> Installer {
    let (mut installer, _) = to_the_files(1);
    installer.step(Reply::Done);
    installer.step(Reply::Done);
    installer.step(Reply::Done);
    let turn = installer.step(Reply::Exists(false));
    assert!(turn.lines[0].stderr);
    assert_eq!(
        lines(&turn),
        vec!["  ⚠ hardware-configuration.nix not found at /mnt/etc/nixos/hardware-configuration.nix"]
    );
    let turn = installer.step(Reply::Exists(false));
    assert!(matches!(turn.request, Request::Install { .. }));
    installer
}

#[test]
fn an_installation_that_fails_exits() {
    let mut installer = to_the_installation();
    let turn = installer.step(Reply::Installed(false));
    assert!(turn.lines[0].stderr);
    assert_eq!(lines(&turn), vec!["\n❌ Installation failed. Check the output above for errors."]);
    assert!(matches!(turn.request, Request::End(Outcome::Exit)));
}

#[test]
fn an_installation_that_cannot_start_ends_with_its_error() {
    let mut installer = to_the_installation();
    let turn = installer.step(Reply::Failed);
    assert!(matches!(turn.request, Request::End(Outcome::Broken)));
}

#[test]
fn the_user_says_what_comes_next() {
    for (k, (line, wanted)) in [
        ("Rebooting...", "reboot "),
        ("  → Dropping to shell. Type `exit` when done.", "/bin/sh "),
        ("Shutting down...", "shutdown -h now"),
    ]
    .iter()
    .enumerate()
    {
        let mut installer = to_the_installation();
        installer.step(Reply::Installed(true));
        let turn = installer.step(Reply::Choice(Some(k)));
        assert_eq!(lines(&turn), vec![*line]);
        assert!(matches!(&turn.request, Request::Launch(c) if shell(c) == *wanted));
        let turn = installer.step(Reply::Failed);
        assert!(turn.lines.is_empty());
        assert!(matches!(turn.request, Request::End(Outcome::Done)));
    }
}

#[test]
fn a_file_that_cannot_be_written_ends_the_installation() {
    for k in 0..3 {
        let (mut installer, _) = to_the_files(0);
        for _ in 0..k {
            installer.step(Reply::Done);
        }
        let turn = installer.step(Reply::Failed);
        assert!(matches!(turn.request, Request::End(Outcome::Broken)));
    }
}

#[test]
fn a_hardware_configuration_that_cannot_be_removed_is_left() {
    let (mut installer, _) = to_the_files(0);
    for _ in 0..3 {
        installer.step(Reply::Done);
    }
    installer.step(Reply::Exists(true));
    installer.step(Reply::Done);
    let turn = installer.step(Reply::Failed);
    assert!(matches!(turn.request, Request::Exists(_)));
}

#[test]
fn only_the_network_is_touched_before_the_yes() {
    let (mut installer, first) = Installer::new();
    let replies = vec![
        Reply::Choice(Some(0)),
        Reply::Choice(Some(1)),
        Reply::Done,
        output("home\n"),
        Reply::Choice(Some(0)),
        Reply::Secret("key".to_string()),
        ok(),
        output("/dev/sda 1T\n"),
        Reply::Choice(Some(0)),
        Reply::Choice(Some(0)),
    ];
    let mut turn = first;
    for reply in replies {
        match &turn.request {
            Request::Capture(c) | Request::Run { command: c, .. } | Request::Settle { command: c, .. } => {
                assert!(c.program == "nmcli" || c.program == "lsblk")
            }
            Request::Select { .. } | Request::Secret { .. } => {}
            other => panic!("{:?}", other),
        }
        turn = installer.step(reply);
    }
    assert!(matches!(turn.request, Request::Confirm { .. }));
}
