//! The installer: from the firmware to the first boot of the new system.

use vstd::prelude::*;

use crate::config::{
    append_bootloader, configuration_file, configuration_slots, flake_file, flake_slots,
    home_file, home_slots, with_boot_block, AnswersView, CONFIGURATION_TEMPLATE, FLAKE_TEMPLATE,
    HOME_TEMPLATE,
};
use crate::flow::{
    arrow_line, arrow_text, ask, ask_for, asking, choice, choose_index, done_line, done_text,
    heading, heading_text, out, out_text, pick, picked, typed, Line, LineView, Outcome,
    OutcomeView, Reply, ReplyView, Request, RequestView, Turn, TurnView,
};
use crate::partition::{partition_plan, partition_steps};
use crate::plan::{
    judge, note, note_about, note_about_text, note_text, request_for, run, run_step, step_request,
    verdict, PlanStep, StepView, Verdict, VerdictView,
};
use crate::style::{plain, span, styled, Style};
use crate::survey::{
    answer, answers_of, name_answers, put_question, question_request, questions, take_answer,
};
use crate::system::{
    cmd, command, disks_listed, interfaces_in, list_disks, list_interfaces, list_networks, lsblk,
    lsblk_command, networks_in, partition_of, run_error, CommandView, DiskView, RunView,
};
use crate::template::{filled, SlotView};
use crate::text::{copy_list, lines_of, lossy, occurs_at, owned, same, utf8_is_read};

verus! {

/// The directory of the new configuration.
pub const GLACIER_DIR: &'static str = "/mnt/glacier";

/// Where the hardware configuration is generated.
pub const HARDWARE: &'static str = "/mnt/etc/nixos/hardware-configuration.nix";

/// What the installer waits for.
#[derive(Clone, Copy, Debug, PartialEq, Eq, Structural)]
pub enum Stage {
    Firmware,
    NetworkKind,
    Interfaces,
    Interface,
    TypedInterface,
    Rescan,
    Networks,
    Network,
    TypedNetwork,
    Password,
    Connecting,
    Disks,
    Disk,
    TypedDisk,
    FileSystem,
    Confirmation,
    Partitioning,
    Hardware,
    GlacierDir,
    HostsDir,
    Asking,
    WriteFlake,
    WriteConfiguration,
    WriteHome,
    HardwareExists,
    HardwareCopy,
    HardwareRemove,
    HostExists,
    HostRead,
    HostWrite,
    Installing,
    NextAction,
    Launching,
    Ended,
}

/// What the installer knows.
#[verifier::ext_equal]
pub struct InstallModel {
    pub stage: Stage,
    /// Whether the firmware is UEFI.
    pub uefi: bool,
    /// The options that were offered last.
    pub options: Seq<Seq<char>>,
    /// The devices that the options stand for.
    pub devices: Seq<Seq<char>>,
    /// The network to connect to.
    pub ssid: Seq<char>,
    /// The disk to install on.
    pub disk: Seq<char>,
    /// The type of the root file system.
    pub fs: Seq<char>,
    /// The commands under way.
    pub plan: Seq<StepView>,
    /// The step of the plan whose reply is awaited.
    pub at: int,
    /// The answers about the configuration so far.
    pub answers: Seq<Seq<char>>,
}

impl InstallModel {
    /// The model with another stage.
    pub open spec fn to(self, stage: Stage) -> InstallModel {
        InstallModel { stage, ..self }
    }

    /// Whether a plan is under way.
    pub open spec fn running(self) -> bool {
        self.stage == Stage::Connecting || self.stage == Stage::Partitioning || self.stage
            == Stage::Hardware
    }

    /// Whether all questions are answered.
    pub open spec fn answered(self) -> bool {
        match self.stage {
            Stage::WriteFlake
            | Stage::WriteConfiguration
            | Stage::WriteHome
            | Stage::HardwareExists
            | Stage::HardwareCopy
            | Stage::HardwareRemove
            | Stage::HostExists
            | Stage::HostRead
            | Stage::HostWrite
            | Stage::Installing => true,
            _ => false,
        }
    }

    /// What holds between any two steps.
    pub open spec fn valid(self) -> bool {
        &&& self.running() ==> 0 <= self.at < self.plan.len()
        &&& self.stage == Stage::Asking ==> self.answers.len() < questions().len()
        &&& self.answered() ==> self.answers.len() == questions().len()
        &&& self.stage == Stage::Disk ==> self.devices.len() == self.options.len()
    }

    /// The name of the new system.
    pub open spec fn host(self) -> Seq<char> {
        answers_of(self.answers).system_name
    }

    /// Where the hardware configuration of the new system goes.
    pub open spec fn host_file(self) -> Seq<char> {
        GLACIER_DIR@ + "/hosts/"@ + self.host() + ".nix"@
    }
}

/// The end of the installation.
pub open spec fn end(m: InstallModel, lines: Seq<LineView>, outcome: OutcomeView) -> (
    InstallModel,
    TurnView,
) {
    (m.to(Stage::Ended), TurnView { lines, request: RequestView::End(outcome) })
}

/// The end, with the error that kept the last request from being met.
pub open spec fn broken(m: InstallModel) -> (InstallModel, TurnView) {
    end(m, seq![], OutcomeView::Broken)
}

/// Ask for something, and wait for the reply in `m`.
pub open spec fn next(m: InstallModel, request: RequestView) -> (InstallModel, TurnView) {
    (m, asking(request))
}

/// Print some lines first.
pub open spec fn say(m: InstallModel, lines: Seq<LineView>, request: RequestView) -> (
    InstallModel,
    TurnView,
) {
    (m, TurnView { lines, request })
}

/// Offer some options.
pub open spec fn select(prompt: Seq<char>, options: Seq<Seq<char>>) -> RequestView {
    RequestView::Select { prompt, options }
}

/// Start a plan.
pub open spec fn launch(m: InstallModel, stage: Stage, plan: Seq<StepView>, lines: Seq<LineView>) -> (
    InstallModel,
    TurnView,
) {
    say(InstallModel { stage, plan, at: 0, ..m }, lines, step_request(plan[0]))
}

/// The kinds of firmware.
pub open spec fn firmwares() -> Seq<Seq<char>> {
    seq!["UEFI"@, "BIOS/Legacy"@]
}

/// The kinds of network.
pub open spec fn network_kinds() -> Seq<Seq<char>> {
    seq!["Ethernet"@, "Wi-Fi"@]
}

/// The types of file system.
pub open spec fn file_systems() -> Seq<Seq<char>> {
    seq!["ext4"@, "btrfs"@, "xfs"@]
}

/// What can be done with the new system.
pub open spec fn next_actions() -> Seq<Seq<char>> {
    seq!["Reboot"@, "Drop to shell"@, "Shutdown"@]
}

/// The first turn.
pub open spec fn opening() -> (InstallModel, TurnView) {
    let m = InstallModel {
        stage: Stage::Firmware,
        uefi: false,
        options: seq![],
        devices: seq![],
        ssid: seq![],
        disk: seq![],
        fs: seq![],
        plan: seq![],
        at: 0,
        answers: seq![],
    };
    say(
        m,
        seq![
            out(
                seq![
                    span(Style::Plain, "🏔️  "@),
                    span(Style::BrightWhiteBold, "Glacier OS Installer"@),
                    span(Style::Plain, "\n"@),
                ],
            ),
        ],
        select("Firmware type"@, firmwares()),
    )
}

/// The firmware is known: ask for the kind of network.
pub open spec fn after_firmware(m: InstallModel, firmware: Seq<char>) -> (InstallModel, TurnView) {
    say(
        InstallModel { stage: Stage::NetworkKind, uefi: firmware == "UEFI"@, ..m },
        seq![heading("── Network ──────────────────────────────"@)],
        select("Network connection type"@, network_kinds()),
    )
}

/// The kind of network is known: list the interfaces, or look for networks.
pub open spec fn after_network_kind(m: InstallModel, kind: Seq<char>) -> (InstallModel, TurnView) {
    if kind == "Ethernet"@ {
        next(
            m.to(Stage::Interfaces),
            RequestView::Capture(cmd("nmcli"@, seq!["-t"@, "-f"@, "DEVICE,TYPE"@, "device"@])),
        )
    } else {
        next(
            m.to(Stage::Rescan),
            RequestView::Settle {
                message: note("Scanning for Wi-Fi networks..."@),
                command: cmd("nmcli"@, seq!["device"@, "wifi"@, "rescan"@]),
                pause_ms: 2000,
            },
        )
    }
}

/// The interfaces are listed: offer them, or have one typed where there is none.
pub open spec fn after_interfaces(m: InstallModel, stdout: Seq<u8>) -> (InstallModel, TurnView) {
    let found = interfaces_in(lines_of(lossy(stdout)));
    if found.len() == 0 {
        next(
            m.to(Stage::TypedInterface),
            RequestView::Input { prompt: "Ethernet interface (e.g. eth0)"@, default: "eth0"@ },
        )
    } else {
        next(
            InstallModel { stage: Stage::Interface, options: found, ..m },
            select("Select ethernet interface"@, found),
        )
    }
}

/// Connect through an interface.
pub open spec fn connect_ethernet(m: InstallModel, interface: Seq<char>) -> (
    InstallModel,
    TurnView,
) {
    launch(
        m,
        Stage::Connecting,
        seq![
            run(
                note_about("Connecting via "@, interface, "..."@),
                "nmcli"@,
                seq!["device"@, "connect"@, interface],
                "Network error"@,
            ),
        ],
        seq![],
    )
}

/// The networks were looked for: list them.
pub open spec fn after_rescan(m: InstallModel) -> (InstallModel, TurnView) {
    next(
        m.to(Stage::Networks),
        RequestView::Capture(
            cmd("nmcli"@, seq!["-t"@, "-f"@, "SSID"@, "device"@, "wifi"@, "list"@]),
        ),
    )
}

/// The networks are listed: offer them, or have one typed where there is none.
pub open spec fn after_networks(m: InstallModel, stdout: Seq<u8>) -> (InstallModel, TurnView) {
    let found = networks_in(lines_of(lossy(stdout)));
    if found.len() == 0 {
        next(
            m.to(Stage::TypedNetwork),
            RequestView::Input { prompt: "Wi-Fi SSID"@, default: ""@ },
        )
    } else {
        next(
            InstallModel { stage: Stage::Network, options: found, ..m },
            select("Select Wi-Fi network"@, found),
        )
    }
}

/// The network is known: ask for its password.
pub open spec fn after_network(m: InstallModel, ssid: Seq<char>) -> (InstallModel, TurnView) {
    next(
        InstallModel { stage: Stage::Password, ssid, ..m },
        RequestView::Secret { prompt: "Wi-Fi password"@ },
    )
}

/// Join the network.
pub open spec fn connect_wifi(m: InstallModel, password: Seq<char>) -> (InstallModel, TurnView) {
    launch(
        m,
        Stage::Connecting,
        seq![
            run(
                note_about("Connecting to "@, m.ssid, "..."@),
                "nmcli"@,
                seq!["device"@, "wifi"@, "connect"@, m.ssid, "password"@, password],
                "Wi-Fi error"@,
            ),
        ],
        seq![],
    )
}

/// The machine is connected: list the disks.
pub open spec fn after_connecting(m: InstallModel) -> (InstallModel, TurnView) {
    say(
        m.to(Stage::Disks),
        seq![
            done_line("Network connected."@),
            heading("── Disk ─────────────────────────────────"@),
        ],
        RequestView::Capture(lsblk()),
    )
}

/// The disks are listed: offer them, or have one typed where there is none.
pub open spec fn after_disks(m: InstallModel, disks: Seq<DiskView>) -> (InstallModel, TurnView) {
    if disks.len() == 0 {
        next(
            m.to(Stage::TypedDisk),
            RequestView::Input { prompt: "Target disk (e.g. /dev/sda)"@, default: "/dev/sda"@ },
        )
    } else {
        let labels = disks.map_values(|d: DiskView| d.label);
        next(
            InstallModel {
                stage: Stage::Disk,
                options: labels,
                devices: disks.map_values(|d: DiskView| d.device),
                ..m
            },
            select("Select target disk"@, labels),
        )
    }
}

/// The disk is known: ask for the type of the file system.
pub open spec fn after_disk(m: InstallModel, disk: Seq<char>) -> (InstallModel, TurnView) {
    next(
        InstallModel { stage: Stage::FileSystem, disk, ..m },
        select("Root filesystem type"@, file_systems()),
    )
}

/// The warning before the disk is erased.
pub open spec fn warning(disk: Seq<char>) -> LineView {
    out(
        seq![
            span(Style::Plain, "\n  "@),
            span(Style::YellowBold, "⚠"@),
            span(Style::Plain, " "@),
            span(Style::Yellow, "This will"@),
            span(Style::Plain, " "@),
            span(Style::RedBold, "ERASE ALL DATA"@),
            span(Style::Plain, " "@),
            span(Style::Yellow, "on "@ + disk + "!"@),
        ],
    )
}

/// The type of the file system is known: warn, and ask for consent.
pub open spec fn after_file_system(m: InstallModel, fs: Seq<char>) -> (InstallModel, TurnView) {
    say(
        InstallModel { stage: Stage::Confirmation, fs, ..m },
        seq![warning(m.disk)],
        RequestView::Confirm { prompt: "Are you sure you want to continue?"@ },
    )
}

/// Make the disk ready, or end where the user does not want it.
pub open spec fn after_confirmation(m: InstallModel, yes: bool) -> (InstallModel, TurnView) {
    if yes {
        launch(
            m,
            Stage::Partitioning,
            partition_steps(m.uefi, m.disk, m.fs),
            seq![heading("── Partitioning ─────────────────────────"@)],
        )
    } else {
        end(
            m,
            seq![out(seq![span(Style::RedBold, "Installation aborted."@)])],
            OutcomeView::Done,
        )
    }
}

/// The disk is ready: look at the hardware.
pub open spec fn after_partitioning(m: InstallModel) -> (InstallModel, TurnView) {
    launch(
        m,
        Stage::Hardware,
        seq![
            run(
                note("Generating hardware configuration..."@),
                "nixos-generate-config"@,
                seq!["--root"@, "/mnt"@],
                "nixos-generate-config failed"@,
            ),
        ],
        seq![
            done_line("Disks formatted and mounted."@),
            heading("── Hardware Config ──────────────────────"@),
        ],
    )
}

/// The hardware is known: create the directory of the configuration.
pub open spec fn after_hardware(m: InstallModel) -> (InstallModel, TurnView) {
    say(
        m.to(Stage::GlacierDir),
        seq![
            done_line("Hardware configuration generated."@),
            heading("── Glacier Configuration ────────────────"@),
            arrow_line("Setting up your Glacier configuration..."@),
        ],
        RequestView::CreateDir(GLACIER_DIR@),
    )
}

/// The next step of the plan, or what comes after the plan.
pub open spec fn after_step(m: InstallModel) -> (InstallModel, TurnView) {
    if m.at + 1 < m.plan.len() {
        next(InstallModel { at: m.at + 1, ..m }, step_request(m.plan[m.at + 1]))
    } else {
        match m.stage {
            Stage::Connecting => after_connecting(m),
            Stage::Partitioning => after_partitioning(m),
            _ => after_hardware(m),
        }
    }
}

/// Put the question that is due.
pub open spec fn put(m: InstallModel) -> (InstallModel, TurnView) {
    next(m.to(Stage::Asking), question_request(questions()[m.answers.len() as int]))
}

/// A question is answered: put the next one, or write the flake.
pub open spec fn after_answer(m: InstallModel, text: Seq<char>) -> (InstallModel, TurnView) {
    let n = InstallModel { answers: m.answers.push(text), ..m };
    if n.answers.len() < questions().len() {
        put(n)
    } else {
        next(
            n.to(Stage::WriteFlake),
            RequestView::WriteFile {
                path: GLACIER_DIR@ + "/flake.nix"@,
                contents: filled(FLAKE_TEMPLATE@, flake_slots(answers_of(n.answers))),
            },
        )
    }
}

/// The flake is written: write the configuration of the system.
pub open spec fn after_flake(m: InstallModel) -> (InstallModel, TurnView) {
    next(
        m.to(Stage::WriteConfiguration),
        RequestView::WriteFile {
            path: GLACIER_DIR@ + "/configuration.nix"@,
            contents: filled(CONFIGURATION_TEMPLATE@, configuration_slots(answers_of(m.answers))),
        },
    )
}

/// That is written: write the configuration of the home directory.
pub open spec fn after_configuration(m: InstallModel) -> (InstallModel, TurnView) {
    next(
        m.to(Stage::WriteHome),
        RequestView::WriteFile {
            path: GLACIER_DIR@ + "/home.nix"@,
            contents: filled(HOME_TEMPLATE@, home_slots(answers_of(m.answers))),
        },
    )
}

/// The files are written: look for the hardware configuration.
pub open spec fn after_home(m: InstallModel) -> (InstallModel, TurnView) {
    say(
        m.to(Stage::HardwareExists),
        seq![done_line("Glacier config written."@)],
        RequestView::Exists(HARDWARE@),
    )
}

/// The warning that there is no hardware configuration.
pub open spec fn no_hardware() -> LineView {
    LineView {
        stderr: true,
        spans: seq![
            span(Style::Plain, "  "@),
            span(Style::Yellow, "⚠"@),
            span(Style::Plain, " "@),
            span(Style::Yellow, "hardware-configuration.nix not found at"@),
            span(Style::Plain, " "@),
            span(Style::Yellow, HARDWARE@),
        ],
    }
}

/// Move the hardware configuration, where there is one.
pub open spec fn after_hardware_exists(m: InstallModel, yes: bool) -> (InstallModel, TurnView) {
    if yes {
        next(
            m.to(Stage::HardwareCopy),
            RequestView::Copy { from: HARDWARE@, to: m.host_file() },
        )
    } else {
        say(m.to(Stage::HostExists), seq![no_hardware()], RequestView::Exists(m.host_file()))
    }
}

/// The line that says where the hardware configuration went.
pub open spec fn moved(host: Seq<char>) -> LineView {
    out(
        seq![
            span(Style::Plain, "  "@),
            span(Style::Green, "✔"@),
            span(Style::Plain, " "@),
            span(Style::Dimmed, "Hardware config moved to"@),
            span(Style::Plain, " "@),
            span(Style::Cyan, "hosts/"@ + host + ".nix"@),
        ],
    )
}

/// The hardware configuration was moved: see whether it arrived.
pub open spec fn after_remove(m: InstallModel) -> (InstallModel, TurnView) {
    say(m.to(Stage::HostExists), seq![moved(m.host())], RequestView::Exists(m.host_file()))
}

/// Install the system, with these lines before the heading.
pub open spec fn install(m: InstallModel, lines: Seq<LineView>) -> (InstallModel, TurnView) {
    say(
        m.to(Stage::Installing),
        lines.push(heading("── Installing ───────────────────────────"@)),
        RequestView::Install { target: ".#"@ + m.host(), dir: GLACIER_DIR@ },
    )
}

/// Add the boot loader to the hardware configuration, where there is one.
pub open spec fn after_host_exists(m: InstallModel, yes: bool) -> (InstallModel, TurnView) {
    if yes {
        next(m.to(Stage::HostRead), RequestView::ReadFile(m.host_file()))
    } else {
        install(m, seq![])
    }
}

/// Put the boot loader into the hardware configuration.
pub open spec fn after_host_read(m: InstallModel, contents: Seq<char>) -> (InstallModel, TurnView) {
    next(
        m.to(Stage::HostWrite),
        RequestView::WriteFile {
            path: m.host_file(),
            contents: with_boot_block(contents, m.uefi),
        },
    )
}

/// The line that says that the system is installed.
pub open spec fn installed(host: Seq<char>) -> LineView {
    out(
        seq![
            span(Style::Plain, "\n✨ "@),
            span(Style::BrightWhiteBold, "NixOS installed successfully!"@),
            span(Style::Plain, " "@),
            span(Style::Dimmed, "("@ + host + ")"@),
        ],
    )
}

/// The line that says that the installation failed.
pub open spec fn not_installed() -> LineView {
    LineView {
        stderr: true,
        spans: seq![
            span(Style::Plain, "\n"@),
            span(Style::RedBold, "❌ Installation failed. Check the output above for errors."@),
        ],
    }
}

/// The system is installed, or not: ask what comes next, or end.
pub open spec fn after_installing(m: InstallModel, yes: bool) -> (InstallModel, TurnView) {
    if yes {
        say(
            m.to(Stage::NextAction),
            seq![installed(m.host()), out(seq![])],
            select("What would you like to do now?"@, next_actions()),
        )
    } else {
        end(m, seq![not_installed()], OutcomeView::Exit)
    }
}

/// Do what the user wants with the new system.
pub open spec fn after_next_action(m: InstallModel, action: Seq<char>) -> (InstallModel, TurnView) {
    let n = m.to(Stage::Launching);
    if action == "Reboot"@ {
        say(
            n,
            seq![out(seq![span(Style::Dimmed, "Rebooting..."@)])],
            RequestView::Launch(cmd("reboot"@, seq![])),
        )
    } else if action == "Shutdown"@ {
        say(
            n,
            seq![out(seq![span(Style::Dimmed, "Shutting down..."@)])],
            RequestView::Launch(cmd("shutdown"@, seq!["-h"@, "now"@])),
        )
    } else {
        say(
            n,
            seq![arrow_line("Dropping to shell. Type `exit` when done."@)],
            RequestView::Launch(cmd("/bin/sh"@, seq![])),
        )
    }
}

/// The disks that a reply to `lsblk` lists; `None` where it is no reply to it.
pub open spec fn disks_replied(reply: ReplyView) -> Option<Seq<DiskView>> {
    match reply {
        ReplyView::Output { success, stdout } => Some(disks_listed(Some((success, stdout)))),
        ReplyView::Failed => Some(disks_listed(None)),
        _ => None,
    }
}

/// The bytes of a reply that are read as text, if any.
pub open spec fn bytes_read(m: InstallModel, reply: ReplyView) -> Option<Seq<u8>> {
    match (m.stage, reply) {
        (Stage::Interfaces, ReplyView::Output { success, stdout }) => Some(stdout),
        (Stage::Networks, ReplyView::Output { success, stdout }) => Some(stdout),
        (Stage::Disks, ReplyView::Output { success: true, stdout }) => Some(stdout),
        (_, ReplyView::Ran(RunView::Exited { success: false, stderr })) => if m.running()
            && m.plan[m.at] is Run {
            Some(stderr)
        } else {
            None
        },
        _ => None,
    }
}

/// What the installer does next, given the reply to its last request. A reply
/// that does not fit the request ends the installation, as does one that says
/// that the request could not be met, where nothing else can be done.
pub open spec fn advance(m: InstallModel, reply: ReplyView) -> (InstallModel, TurnView) {
    match (m.stage, reply) {
        (Stage::Firmware, _) => match picked(firmwares(), reply) {
            Some(firmware) => after_firmware(m, firmware),
            None => broken(m),
        },
        (Stage::NetworkKind, _) => match picked(network_kinds(), reply) {
            Some(kind) => after_network_kind(m, kind),
            None => broken(m),
        },
        (Stage::Interfaces, ReplyView::Output { success, stdout }) => after_interfaces(m, stdout),
        (Stage::Interface, _) => match picked(m.options, reply) {
            Some(interface) => connect_ethernet(m, interface),
            None => broken(m),
        },
        (Stage::TypedInterface, _) => match typed("eth0"@, reply) {
            Some(interface) => connect_ethernet(m, interface),
            None => broken(m),
        },
        (Stage::Rescan, _) => after_rescan(m),
        (Stage::Networks, ReplyView::Output { success, stdout }) => after_networks(m, stdout),
        (Stage::Network, _) => match picked(m.options, reply) {
            Some(ssid) => after_network(m, ssid),
            None => broken(m),
        },
        (Stage::TypedNetwork, _) => match typed(""@, reply) {
            Some(ssid) => after_network(m, ssid),
            None => broken(m),
        },
        (Stage::Password, ReplyView::Secret(password)) => connect_wifi(m, password),
        (Stage::Disks, _) => match disks_replied(reply) {
            Some(disks) => after_disks(m, disks),
            None => broken(m),
        },
        (Stage::Disk, _) => match choice(m.devices.len(), reply) {
            Some(i) => after_disk(m, m.devices[i]),
            None => broken(m),
        },
        (Stage::TypedDisk, _) => match typed("/dev/sda"@, reply) {
            Some(disk) => after_disk(m, disk),
            None => broken(m),
        },
        (Stage::FileSystem, _) => match picked(file_systems(), reply) {
            Some(fs) => after_file_system(m, fs),
            None => broken(m),
        },
        (Stage::Confirmation, ReplyView::Confirmed(yes)) => after_confirmation(m, yes),
        (Stage::Connecting, _) | (Stage::Partitioning, _) | (Stage::Hardware, _) => match verdict(
            m.plan[m.at],
            reply,
        ) {
            VerdictView::Next => after_step(m),
            VerdictView::Failed(why) => end(m, seq![], OutcomeView::Failed(why)),
            VerdictView::Broken => broken(m),
        },
        (Stage::GlacierDir, ReplyView::Done) => next(
            m.to(Stage::HostsDir),
            RequestView::CreateDir(GLACIER_DIR@ + "/hosts"@),
        ),
        (Stage::HostsDir, ReplyView::Done) => put(InstallModel { answers: seq![], ..m }),
        (Stage::Asking, _) => match answer(questions()[m.answers.len() as int], reply) {
            Some(text) => after_answer(m, text),
            None => broken(m),
        },
        (Stage::WriteFlake, ReplyView::Done) => after_flake(m),
        (Stage::WriteConfiguration, ReplyView::Done) => after_configuration(m),
        (Stage::WriteHome, ReplyView::Done) => after_home(m),
        (Stage::HardwareExists, ReplyView::Exists(yes)) => after_hardware_exists(m, yes),
        (Stage::HardwareCopy, ReplyView::Done) => next(
            m.to(Stage::HardwareRemove),
            RequestView::Remove(HARDWARE@),
        ),
        (Stage::HardwareRemove, _) => after_remove(m),
        (Stage::HostExists, ReplyView::Exists(yes)) => after_host_exists(m, yes),
        (Stage::HostRead, ReplyView::Contents(contents)) => after_host_read(m, contents),
        (Stage::HostWrite, ReplyView::Done) => install(
            m,
            seq![done_line("Boot loader config appended."@)],
        ),
        (Stage::Installing, ReplyView::Installed(yes)) => after_installing(m, yes),
        (Stage::NextAction, _) => match picked(next_actions(), reply) {
            Some(action) => after_next_action(m, action),
            None => broken(m),
        },
        (Stage::Launching, _) => end(m, seq![], OutcomeView::Done),
        _ => broken(m),
    }
}

/// The installer. It asks for one thing at a time and goes on with the reply.
pub struct Installer {
    stage: Stage,
    uefi: bool,
    options: Vec<String>,
    devices: Vec<String>,
    ssid: String,
    disk: String,
    fs: String,
    plan: Vec<PlanStep>,
    at: usize,
    answers: Vec<String>,
}

/// A turn with some lines.
fn turn(lines: Vec<Line>, request: Request) -> (r: Turn)
    ensures
        r.deep_view() == (TurnView { lines: lines.deep_view(), request: request.deep_view() }),
{
    Turn { lines, request }
}

/// Offers some options.
fn select_from(prompt: &str, options: Vec<String>) -> (r: Request)
    ensures
        r.deep_view() == select(prompt@, options.deep_view()),
{
    Request::Select { prompt: prompt.to_string(), options }
}

/// Lets the user type a text.
fn input(prompt: &str, default: &str) -> (r: Request)
    ensures
        r.deep_view() == (RequestView::Input { prompt: prompt@, default: default@ }),
{
    Request::Input { prompt: prompt.to_string(), default: default.to_string() }
}

fn firmware_options() -> (r: Vec<String>)
    ensures
        r.deep_view() == firmwares(),
{
    let r = vec!["UEFI", "BIOS/Legacy"];
    assert(r.deep_view() =~= firmwares());
    owned(r)
}

fn network_options() -> (r: Vec<String>)
    ensures
        r.deep_view() == network_kinds(),
{
    let r = vec!["Ethernet", "Wi-Fi"];
    assert(r.deep_view() =~= network_kinds());
    owned(r)
}

fn file_system_options() -> (r: Vec<String>)
    ensures
        r.deep_view() == file_systems(),
{
    let r = vec!["ext4", "btrfs", "xfs"];
    assert(r.deep_view() =~= file_systems());
    owned(r)
}

fn action_options() -> (r: Vec<String>)
    ensures
        r.deep_view() == next_actions(),
{
    let r = vec!["Reboot", "Drop to shell", "Shutdown"];
    assert(r.deep_view() =~= next_actions());
    owned(r)
}

impl Installer {
    /// What the installer knows.
    pub closed spec fn model(&self) -> InstallModel {
        InstallModel {
            stage: self.stage,
            uefi: self.uefi,
            options: self.options.deep_view(),
            devices: self.devices.deep_view(),
            ssid: self.ssid@,
            disk: self.disk@,
            fs: self.fs@,
            plan: self.plan.deep_view(),
            at: self.at as int,
            answers: self.answers.deep_view(),
        }
    }

    /// An installer, and its first turn.
    pub fn new() -> (r: (Installer, Turn))
        ensures
            (r.0.model(), r.1.deep_view()) == opening(),
            r.0.model().valid(),
    {
        let installer = Installer {
            stage: Stage::Firmware,
            uefi: false,
            options: Vec::new(),
            devices: Vec::new(),
            ssid: String::new(),
            disk: String::new(),
            fs: String::new(),
            plan: Vec::new(),
            at: 0,
            answers: Vec::new(),
        };
        let spans = vec![
            plain("🏔️  "),
            styled(Style::BrightWhiteBold, "Glacier OS Installer"),
            plain("\n"),
        ];
        let lines = vec![out_text(spans)];
        proof {
            assert(spans.deep_view() =~= opening().1.lines[0].spans);
            assert(lines.deep_view() =~= opening().1.lines);
            assert(installer.model() =~= opening().0);
        }
        (installer, turn(lines, select_from("Firmware type", firmware_options())))
    }

    /// Ends the installation.
    fn end(&mut self, lines: Vec<Line>, outcome: Outcome) -> (r: Turn)
        ensures
            (final(self).model(), r.deep_view()) == end(
                old(self).model(),
                lines.deep_view(),
                outcome.deep_view(),
            ),
    {
        self.stage = Stage::Ended;
        turn(lines, Request::End(outcome))
    }

    /// Ends the installation with the error that kept the last request from being
    /// met.
    fn broken(&mut self) -> (r: Turn)
        ensures
            (final(self).model(), r.deep_view()) == broken(old(self).model()),
    {
        let lines: Vec<Line> = Vec::new();
        assert(lines.deep_view() =~= seq![]);
        self.end(lines, Outcome::Broken)
    }

    /// Starts a plan.
    fn launch(&mut self, stage: Stage, plan: Vec<PlanStep>, lines: Vec<Line>) -> (r: Turn)
        requires
            plan@.len() > 0,
        ensures
            (final(self).model(), r.deep_view()) == launch(
                old(self).model(),
                stage,
                plan.deep_view(),
                lines.deep_view(),
            ),
    {
        let request = request_for(&plan[0]);
        assert(plan.deep_view()[0] == plan@[0].deep_view());
        self.stage = stage;
        self.plan = plan;
        self.at = 0;
        turn(lines, request)
    }

    fn after_firmware(&mut self, firmware: &str) -> (r: Turn)
        ensures
            (final(self).model(), r.deep_view()) == after_firmware(old(self).model(), firmware@),
    {
        self.uefi = same(firmware, "UEFI");
        self.stage = Stage::NetworkKind;
        let lines = vec![heading_text("── Network ──────────────────────────────")];
        assert(lines.deep_view() =~= seq![heading("── Network ──────────────────────────────"@)]);
        turn(lines, select_from("Network connection type", network_options()))
    }

    fn after_network_kind(&mut self, kind: &str) -> (r: Turn)
        ensures
            (final(self).model(), r.deep_view()) == after_network_kind(old(self).model(), kind@),
    {
        if same(kind, "Ethernet") {
            self.stage = Stage::Interfaces;
            let args = vec!["-t", "-f", "DEVICE,TYPE", "device"];
            assert(args.deep_view() =~= seq!["-t"@, "-f"@, "DEVICE,TYPE"@, "device"@]);
            ask_for(Request::Capture(command("nmcli", args)))
        } else {
            self.stage = Stage::Rescan;
            let args = vec!["device", "wifi", "rescan"];
            assert(args.deep_view() =~= seq!["device"@, "wifi"@, "rescan"@]);
            ask_for(
                Request::Settle {
                    message: note_text("Scanning for Wi-Fi networks..."),
                    command: command("nmcli", args),
                    pause_ms: 2000,
                },
            )
        }
    }

    fn after_interfaces(&mut self, stdout: &Vec<u8>) -> (r: Turn)
        ensures
            (final(self).model(), r.deep_view()) == after_interfaces(old(self).model(), stdout@),
            utf8_is_read(stdout@),
    {
        let found = list_interfaces(stdout);
        if found.len() == 0 {
            self.stage = Stage::TypedInterface;
            ask_for(input("Ethernet interface (e.g. eth0)", "eth0"))
        } else {
            self.stage = Stage::Interface;
            self.options = copy_list(&found);
            ask_for(select_from("Select ethernet interface", found))
        }
    }

    fn connect_ethernet(&mut self, interface: &str) -> (r: Turn)
        ensures
            (final(self).model(), r.deep_view()) == connect_ethernet(
                old(self).model(),
                interface@,
            ),
    {
        let args = vec!["device", "connect", interface];
        assert(args.deep_view() =~= seq!["device"@, "connect"@, interface@]);
        let plan = vec![
            run_step(
                note_about_text("Connecting via ", interface, "..."),
                "nmcli",
                args,
                "Network error",
            ),
        ];
        let lines: Vec<Line> = Vec::new();
        proof {
            assert(lines.deep_view() =~= seq![]);
            assert(plan.deep_view() =~= connect_ethernet(self.model(), interface@).0.plan);
        }
        self.launch(Stage::Connecting, plan, lines)
    }

    fn after_rescan(&mut self) -> (r: Turn)
        ensures
            (final(self).model(), r.deep_view()) == after_rescan(old(self).model()),
    {
        self.stage = Stage::Networks;
        let args = vec!["-t", "-f", "SSID", "device", "wifi", "list"];
        assert(args.deep_view() =~= seq!["-t"@, "-f"@, "SSID"@, "device"@, "wifi"@, "list"@]);
        ask_for(Request::Capture(command("nmcli", args)))
    }

    fn after_networks(&mut self, stdout: &Vec<u8>) -> (r: Turn)
        ensures
            (final(self).model(), r.deep_view()) == after_networks(old(self).model(), stdout@),
            utf8_is_read(stdout@),
    {
        let found = list_networks(stdout);
        if found.len() == 0 {
            self.stage = Stage::TypedNetwork;
            ask_for(input("Wi-Fi SSID", ""))
        } else {
            self.stage = Stage::Network;
            self.options = copy_list(&found);
            ask_for(select_from("Select Wi-Fi network", found))
        }
    }

    fn after_network(&mut self, ssid: String) -> (r: Turn)
        ensures
            (final(self).model(), r.deep_view()) == after_network(old(self).model(), ssid@),
    {
        self.stage = Stage::Password;
        self.ssid = ssid;
        ask_for(Request::Secret { prompt: "Wi-Fi password".to_string() })
    }

    fn connect_wifi(&mut self, password: &str) -> (r: Turn)
        ensures
            (final(self).model(), r.deep_view()) == connect_wifi(old(self).model(), password@),
    {
        let ssid = self.ssid.clone();
        let args = vec!["device", "wifi", "connect", ssid.as_str(), "password", password];
        assert(args.deep_view() =~= seq![
            "device"@,
            "wifi"@,
            "connect"@,
            ssid@,
            "password"@,
            password@,
        ]);
        let plan = vec![
            run_step(
                note_about_text("Connecting to ", ssid.as_str(), "..."),
                "nmcli",
                args,
                "Wi-Fi error",
            ),
        ];
        let lines: Vec<Line> = Vec::new();
        proof {
            assert(lines.deep_view() =~= seq![]);
            assert(plan.deep_view() =~= connect_wifi(self.model(), password@).0.plan);
        }
        self.launch(Stage::Connecting, plan, lines)
    }

    fn after_connecting(&mut self) -> (r: Turn)
        ensures
            (final(self).model(), r.deep_view()) == after_connecting(old(self).model()),
    {
        self.stage = Stage::Disks;
        let lines = vec![
            done_text("Network connected."),
            heading_text("── Disk ─────────────────────────────────"),
        ];
        assert(lines.deep_view() =~= after_connecting(self.model()).1.lines);
        turn(lines, Request::Capture(lsblk_command()))
    }

    fn after_disks(&mut self, reply: Reply) -> (r: Turn)
        ensures
            (final(self).model(), r.deep_view()) == (match disks_replied(reply.deep_view()) {
                Some(disks) => after_disks(old(self).model(), disks),
                None => broken(old(self).model()),
            }),
            match reply {
                Reply::Output { success: true, stdout } => utf8_is_read(stdout@),
                _ => true,
            },
    {
        let disks = match reply {
            Reply::Output { success, stdout } => list_disks(Some((success, stdout))),
            Reply::Failed => list_disks(None),
            _ => {
                return self.broken();
            },
        };
        if disks.len() == 0 {
            self.stage = Stage::TypedDisk;
            return ask_for(input("Target disk (e.g. /dev/sda)", "/dev/sda"));
        }
        let ghost all = disks.deep_view();
        let mut labels: Vec<String> = Vec::new();
        let mut devices: Vec<String> = Vec::new();
        let mut i: usize = 0;
        while i < disks.len()
            invariant
                i <= disks.len(),
                labels.len() == i,
                devices.len() == i,
                forall|k: int| 0 <= k < i ==> (#[trigger] labels@[k])@ == disks@[k].label@,
                forall|k: int| 0 <= k < i ==> (#[trigger] devices@[k])@ == disks@[k].device@,
            decreases disks.len() - i,
        {
            labels.push(disks[i].label.clone());
            devices.push(disks[i].device.clone());
            i += 1;
        }
        proof {
            assert(labels.deep_view() =~= all.map_values(|d: DiskView| d.label));
            assert(devices.deep_view() =~= all.map_values(|d: DiskView| d.device));
        }
        self.stage = Stage::Disk;
        self.options = copy_list(&labels);
        self.devices = devices;
        ask_for(select_from("Select target disk", labels))
    }

    fn after_disk(&mut self, disk: String) -> (r: Turn)
        ensures
            (final(self).model(), r.deep_view()) == after_disk(old(self).model(), disk@),
    {
        self.stage = Stage::FileSystem;
        self.disk = disk;
        ask_for(select_from("Root filesystem type", file_system_options()))
    }

    fn after_file_system(&mut self, fs: String) -> (r: Turn)
        ensures
            (final(self).model(), r.deep_view()) == after_file_system(old(self).model(), fs@),
    {
        self.stage = Stage::Confirmation;
        self.fs = fs;
        let mut on = "on ".to_string();
        on.append(self.disk.as_str());
        on.append("!");
        let spans = vec![
            plain("\n  "),
            styled(Style::YellowBold, "⚠"),
            plain(" "),
            styled(Style::Yellow, "This will"),
            plain(" "),
            styled(Style::RedBold, "ERASE ALL DATA"),
            plain(" "),
            styled(Style::Yellow, on.as_str()),
        ];
        assert(spans.deep_view() =~= warning(self.disk@).spans);
        let lines = vec![out_text(spans)];
        assert(lines.deep_view() =~= seq![warning(self.disk@)]);
        turn(lines, Request::Confirm { prompt: "Are you sure you want to continue?".to_string() })
    }

    fn after_confirmation(&mut self, yes: bool) -> (r: Turn)
        ensures
            (final(self).model(), r.deep_view()) == after_confirmation(old(self).model(), yes),
    {
        if yes {
            let plan = partition_plan(self.uefi, self.disk.as_str(), self.fs.as_str());
            let lines = vec![heading_text("── Partitioning ─────────────────────────")];
            proof {
                assert(plan.deep_view().len() == plan@.len());
                assert(lines.deep_view() =~= after_confirmation(self.model(), yes).1.lines);
            }
            self.launch(Stage::Partitioning, plan, lines)
        } else {
            let spans = vec![styled(Style::RedBold, "Installation aborted.")];
            assert(spans.deep_view() =~= seq![span(Style::RedBold, "Installation aborted."@)]);
            let lines = vec![out_text(spans)];
            assert(lines.deep_view() =~= after_confirmation(self.model(), yes).1.lines);
            self.end(lines, Outcome::Done)
        }
    }

    fn after_partitioning(&mut self) -> (r: Turn)
        ensures
            (final(self).model(), r.deep_view()) == after_partitioning(old(self).model()),
    {
        let args = vec!["--root", "/mnt"];
        assert(args.deep_view() =~= seq!["--root"@, "/mnt"@]);
        let plan = vec![
            run_step(
                note_text("Generating hardware configuration..."),
                "nixos-generate-config",
                args,
                "nixos-generate-config failed",
            ),
        ];
        let lines = vec![
            done_text("Disks formatted and mounted."),
            heading_text("── Hardware Config ──────────────────────"),
        ];
        proof {
            assert(plan.deep_view() =~= after_partitioning(self.model()).0.plan);
            assert(lines.deep_view() =~= after_partitioning(self.model()).1.lines);
        }
        self.launch(Stage::Hardware, plan, lines)
    }

    fn after_hardware(&mut self) -> (r: Turn)
        ensures
            (final(self).model(), r.deep_view()) == after_hardware(old(self).model()),
    {
        let lines = vec![
            done_text("Hardware configuration generated."),
            heading_text("── Glacier Configuration ────────────────"),
            arrow_text("Setting up your Glacier configuration..."),
        ];
        assert(lines.deep_view() =~= after_hardware(self.model()).1.lines);
        self.stage = Stage::GlacierDir;
        turn(lines, Request::CreateDir(GLACIER_DIR.to_string()))
    }

    fn after_step(&mut self) -> (r: Turn)
        requires
            old(self).model().running(),
            old(self).model().valid(),
        ensures
            (final(self).model(), r.deep_view()) == after_step(old(self).model()),
    {
        assert(self.plan.deep_view().len() == self.plan@.len());
        if self.plan.len() - self.at > 1 {
            self.at = self.at + 1;
            assert(self.plan.deep_view()[self.at as int] == self.plan@[self.at as int].deep_view());
            ask_for(request_for(&self.plan[self.at]))
        } else {
            match self.stage {
                Stage::Connecting => self.after_connecting(),
                Stage::Partitioning => self.after_partitioning(),
                _ => self.after_hardware(),
            }
        }
    }

    /// The name of the new system.
    fn host(&self) -> (r: String)
        requires
            self.model().answers.len() == questions().len(),
        ensures
            r@ == self.model().host(),
    {
        name_answers(&self.answers).system_name
    }

    /// Where the hardware configuration of the new system goes.
    fn host_file(&self) -> (r: String)
        requires
            self.model().answers.len() == questions().len(),
        ensures
            r@ == self.model().host_file(),
    {
        let mut r = GLACIER_DIR.to_string();
        r.append("/hosts/");
        r.append(self.host().as_str());
        r.append(".nix");
        r
    }

    fn put(&mut self) -> (r: Turn)
        requires
            old(self).model().answers.len() < questions().len(),
        ensures
            (final(self).model(), r.deep_view()) == put(old(self).model()),
    {
        self.stage = Stage::Asking;
        ask_for(put_question(self.answers.len()))
    }

    fn after_answer(&mut self, text: String) -> (r: Turn)
        requires
            old(self).model().answers.len() < questions().len(),
        ensures
            (final(self).model(), r.deep_view()) == after_answer(old(self).model(), text@),
    {
        let ghost before = self.model();
        self.answers.push(text);
        proof {
            assert(self.model().answers =~= before.answers.push(text@));
        }
        if self.answers.len() < 13 {
            self.put()
        } else {
            self.stage = Stage::WriteFlake;
            let answers = name_answers(&self.answers);
            let mut path = GLACIER_DIR.to_string();
            path.append("/flake.nix");
            ask_for(Request::WriteFile { path, contents: flake_file(&answers) })
        }
    }

    fn after_flake(&mut self) -> (r: Turn)
        requires
            old(self).model().answers.len() == questions().len(),
        ensures
            (final(self).model(), r.deep_view()) == after_flake(old(self).model()),
    {
        self.stage = Stage::WriteConfiguration;
        let answers = name_answers(&self.answers);
        let mut path = GLACIER_DIR.to_string();
        path.append("/configuration.nix");
        ask_for(Request::WriteFile { path, contents: configuration_file(&answers) })
    }

    fn after_configuration(&mut self) -> (r: Turn)
        requires
            old(self).model().answers.len() == questions().len(),
        ensures
            (final(self).model(), r.deep_view()) == after_configuration(old(self).model()),
    {
        self.stage = Stage::WriteHome;
        let answers = name_answers(&self.answers);
        let mut path = GLACIER_DIR.to_string();
        path.append("/home.nix");
        ask_for(Request::WriteFile { path, contents: home_file(&answers) })
    }

    fn after_home(&mut self) -> (r: Turn)
        ensures
            (final(self).model(), r.deep_view()) == after_home(old(self).model()),
    {
        self.stage = Stage::HardwareExists;
        let lines = vec![done_text("Glacier config written.")];
        assert(lines.deep_view() =~= after_home(self.model()).1.lines);
        turn(lines, Request::Exists(HARDWARE.to_string()))
    }

    fn after_hardware_exists(&mut self, yes: bool) -> (r: Turn)
        requires
            old(self).model().answers.len() == questions().len(),
        ensures
            (final(self).model(), r.deep_view()) == after_hardware_exists(old(self).model(), yes),
    {
        let to = self.host_file();
        if yes {
            self.stage = Stage::HardwareCopy;
            ask_for(Request::Copy { from: HARDWARE.to_string(), to })
        } else {
            self.stage = Stage::HostExists;
            let spans = vec![
                plain("  "),
                styled(Style::Yellow, "⚠"),
                plain(" "),
                styled(Style::Yellow, "hardware-configuration.nix not found at"),
                plain(" "),
                styled(Style::Yellow, HARDWARE),
            ];
            assert(spans.deep_view() =~= no_hardware().spans);
            let lines = vec![Line { stderr: true, spans }];
            assert(lines.deep_view() =~= seq![no_hardware()]);
            turn(lines, Request::Exists(to))
        }
    }

    fn after_remove(&mut self) -> (r: Turn)
        requires
            old(self).model().answers.len() == questions().len(),
        ensures
            (final(self).model(), r.deep_view()) == after_remove(old(self).model()),
    {
        let host = self.host();
        let to = self.host_file();
        self.stage = Stage::HostExists;
        let mut file = "hosts/".to_string();
        file.append(host.as_str());
        file.append(".nix");
        let spans = vec![
            plain("  "),
            styled(Style::Green, "✔"),
            plain(" "),
            styled(Style::Dimmed, "Hardware config moved to"),
            plain(" "),
            styled(Style::Cyan, file.as_str()),
        ];
        assert(spans.deep_view() =~= moved(host@).spans);
        let lines = vec![out_text(spans)];
        assert(lines.deep_view() =~= seq![moved(host@)]);
        turn(lines, Request::Exists(to))
    }

    fn install(&mut self, lines: Vec<Line>) -> (r: Turn)
        requires
            old(self).model().answers.len() == questions().len(),
        ensures
            (final(self).model(), r.deep_view()) == install(old(self).model(), lines.deep_view()),
    {
        let ghost first = lines.deep_view();
        let mut lines = lines;
        let heading = heading_text("── Installing ───────────────────────────");
        lines.push(heading);
        assert(lines.deep_view() =~= first.push(heading.deep_view()));
        let mut target = ".#".to_string();
        target.append(self.host().as_str());
        self.stage = Stage::Installing;
        turn(lines, Request::Install { target, dir: GLACIER_DIR.to_string() })
    }

    fn after_host_exists(&mut self, yes: bool) -> (r: Turn)
        requires
            old(self).model().answers.len() == questions().len(),
        ensures
            (final(self).model(), r.deep_view()) == after_host_exists(old(self).model(), yes),
    {
        if yes {
            let path = self.host_file();
            self.stage = Stage::HostRead;
            ask_for(Request::ReadFile(path))
        } else {
            let lines: Vec<Line> = Vec::new();
            assert(lines.deep_view() =~= seq![]);
            self.install(lines)
        }
    }

    fn after_host_read(&mut self, contents: &str) -> (r: Turn)
        requires
            old(self).model().answers.len() == questions().len(),
        ensures
            (final(self).model(), r.deep_view()) == after_host_read(old(self).model(), contents@),
    {
        let path = self.host_file();
        self.stage = Stage::HostWrite;
        ask_for(Request::WriteFile { path, contents: append_bootloader(contents, self.uefi) })
    }

    fn after_host_write(&mut self) -> (r: Turn)
        requires
            old(self).model().answers.len() == questions().len(),
        ensures
            (final(self).model(), r.deep_view()) == install(
                old(self).model(),
                seq![done_line("Boot loader config appended."@)],
            ),
    {
        let lines = vec![done_text("Boot loader config appended.")];
        assert(lines.deep_view() =~= seq![done_line("Boot loader config appended."@)]);
        self.install(lines)
    }

    fn after_installing(&mut self, yes: bool) -> (r: Turn)
        requires
            old(self).model().answers.len() == questions().len(),
        ensures
            (final(self).model(), r.deep_view()) == after_installing(old(self).model(), yes),
    {
        if yes {
            let host = self.host();
            let mut name = "(".to_string();
            name.append(host.as_str());
            name.append(")");
            let spans = vec![
                plain("\n✨ "),
                styled(Style::BrightWhiteBold, "NixOS installed successfully!"),
                plain(" "),
                styled(Style::Dimmed, name.as_str()),
            ];
            assert(spans.deep_view() =~= installed(host@).spans);
            let blank = Vec::new();
            assert(blank.deep_view() =~= seq![]);
            let lines = vec![out_text(spans), out_text(blank)];
            assert(lines.deep_view() =~= after_installing(self.model(), yes).1.lines);
            self.stage = Stage::NextAction;
            turn(lines, select_from("What would you like to do now?", action_options()))
        } else {
            let spans = vec![
                plain("\n"),
                styled(
                    Style::RedBold,
                    "❌ Installation failed. Check the output above for errors.",
                ),
            ];
            assert(spans.deep_view() =~= not_installed().spans);
            let lines = vec![Line { stderr: true, spans }];
            assert(lines.deep_view() =~= seq![not_installed()]);
            self.end(lines, Outcome::Exit)
        }
    }

    fn after_next_action(&mut self, action: &str) -> (r: Turn)
        ensures
            (final(self).model(), r.deep_view()) == after_next_action(old(self).model(), action@),
    {
        let ghost wanted = after_next_action(self.model(), action@).1;
        self.stage = Stage::Launching;
        if same(action, "Reboot") {
            let spans = vec![styled(Style::Dimmed, "Rebooting...")];
            assert(spans.deep_view() =~= wanted.lines[0].spans);
            let lines = vec![out_text(spans)];
            let args: Vec<&str> = Vec::new();
            assert(lines.deep_view() =~= wanted.lines);
            assert(args.deep_view() =~= seq![]);
            turn(lines, Request::Launch(command("reboot", args)))
        } else if same(action, "Shutdown") {
            let spans = vec![styled(Style::Dimmed, "Shutting down...")];
            assert(spans.deep_view() =~= wanted.lines[0].spans);
            let lines = vec![out_text(spans)];
            let args = vec!["-h", "now"];
            assert(lines.deep_view() =~= wanted.lines);
            assert(args.deep_view() =~= seq!["-h"@, "now"@]);
            turn(lines, Request::Launch(command("shutdown", args)))
        } else {
            let lines = vec![arrow_text("Dropping to shell. Type `exit` when done.")];
            let args: Vec<&str> = Vec::new();
            assert(lines.deep_view() =~= wanted.lines);
            assert(args.deep_view() =~= seq![]);
            turn(lines, Request::Launch(command("/bin/sh", args)))
        }
    }

    /// Goes on with the reply to the last request.
    pub fn step(&mut self, reply: Reply) -> (r: Turn)
        requires
            old(self).model().valid(),
        ensures
            (final(self).model(), r.deep_view()) == advance(old(self).model(), reply.deep_view()),
            final(self).model().valid(),
            match bytes_read(old(self).model(), reply.deep_view()) {
                Some(bytes) => utf8_is_read(bytes),
                None => true,
            },
    {
        let ghost before = self.model();
        proof {
            lemma_advance_valid(before, reply.deep_view());
            assert(self.plan.deep_view().len() == self.plan@.len());
        }
        match self.stage {
            Stage::Firmware => match pick(&firmware_options(), &reply) {
                Some(firmware) => self.after_firmware(firmware.as_str()),
                None => self.broken(),
            },
            Stage::NetworkKind => match pick(&network_options(), &reply) {
                Some(kind) => self.after_network_kind(kind.as_str()),
                None => self.broken(),
            },
            Stage::Interfaces => match reply {
                Reply::Output { success: _, stdout } => self.after_interfaces(&stdout),
                _ => self.broken(),
            },
            Stage::Interface => match pick(&self.options, &reply) {
                Some(interface) => self.connect_ethernet(interface.as_str()),
                None => self.broken(),
            },
            Stage::TypedInterface => match ask("eth0", reply) {
                Some(interface) => self.connect_ethernet(interface.as_str()),
                None => self.broken(),
            },
            Stage::Rescan => self.after_rescan(),
            Stage::Networks => match reply {
                Reply::Output { success: _, stdout } => self.after_networks(&stdout),
                _ => self.broken(),
            },
            Stage::Network => match pick(&self.options, &reply) {
                Some(ssid) => self.after_network(ssid),
                None => self.broken(),
            },
            Stage::TypedNetwork => match ask("", reply) {
                Some(ssid) => self.after_network(ssid),
                None => self.broken(),
            },
            Stage::Password => match reply {
                Reply::Secret(password) => self.connect_wifi(password.as_str()),
                _ => self.broken(),
            },
            Stage::Disks => self.after_disks(reply),
            Stage::Disk => match choose_index(self.devices.len(), &reply) {
                Some(i) => {
                    let disk = self.devices[i].clone();
                    self.after_disk(disk)
                },
                None => self.broken(),
            },
            Stage::TypedDisk => match ask("/dev/sda", reply) {
                Some(disk) => self.after_disk(disk),
                None => self.broken(),
            },
            Stage::FileSystem => match pick(&file_system_options(), &reply) {
                Some(fs) => self.after_file_system(fs),
                None => self.broken(),
            },
            Stage::Confirmation => match reply {
                Reply::Confirmed(yes) => self.after_confirmation(yes),
                _ => self.broken(),
            },
            Stage::Connecting | Stage::Partitioning | Stage::Hardware => {
                assert(self.plan.deep_view()[self.at as int]
                    == self.plan@[self.at as int].deep_view());
                match judge(&self.plan[self.at], &reply) {
                    Verdict::Next => self.after_step(),
                    Verdict::Failed(why) => {
                        let lines: Vec<Line> = Vec::new();
                        assert(lines.deep_view() =~= seq![]);
                        self.end(lines, Outcome::Failed(why))
                    },
                    Verdict::Broken => self.broken(),
                }
            },
            Stage::GlacierDir => match reply {
                Reply::Done => {
                    self.stage = Stage::HostsDir;
                    let mut path = GLACIER_DIR.to_string();
                    path.append("/hosts");
                    ask_for(Request::CreateDir(path))
                },
                _ => self.broken(),
            },
            Stage::HostsDir => match reply {
                Reply::Done => {
                    self.answers = Vec::new();
                    assert(self.answers.deep_view() =~= seq![]);
                    self.put()
                },
                _ => self.broken(),
            },
            Stage::Asking => match take_answer(self.answers.len(), reply) {
                Some(text) => self.after_answer(text),
                None => self.broken(),
            },
            Stage::WriteFlake => match reply {
                Reply::Done => self.after_flake(),
                _ => self.broken(),
            },
            Stage::WriteConfiguration => match reply {
                Reply::Done => self.after_configuration(),
                _ => self.broken(),
            },
            Stage::WriteHome => match reply {
                Reply::Done => self.after_home(),
                _ => self.broken(),
            },
            Stage::HardwareExists => match reply {
                Reply::Exists(yes) => self.after_hardware_exists(yes),
                _ => self.broken(),
            },
            Stage::HardwareCopy => match reply {
                Reply::Done => {
                    self.stage = Stage::HardwareRemove;
                    ask_for(Request::Remove(HARDWARE.to_string()))
                },
                _ => self.broken(),
            },
            Stage::HardwareRemove => self.after_remove(),
            Stage::HostExists => match reply {
                Reply::Exists(yes) => self.after_host_exists(yes),
                _ => self.broken(),
            },
            Stage::HostRead => match reply {
                Reply::Contents(contents) => self.after_host_read(contents.as_str()),
                _ => self.broken(),
            },
            Stage::HostWrite => match reply {
                Reply::Done => self.after_host_write(),
                _ => self.broken(),
            },
            Stage::Installing => match reply {
                Reply::Installed(yes) => self.after_installing(yes),
                _ => self.broken(),
            },
            Stage::NextAction => match pick(&action_options(), &reply) {
                Some(action) => self.after_next_action(action.as_str()),
                None => self.broken(),
            },
            Stage::Launching => {
                let lines: Vec<Line> = Vec::new();
                assert(lines.deep_view() =~= seq![]);
                self.end(lines, Outcome::Done)
            },
            Stage::Ended => self.broken(),
        }
    }
}

/// A step keeps what holds between any two steps.
proof fn lemma_advance_valid(m: InstallModel, reply: ReplyView)
    requires
        m.valid(),
    ensures
        advance(m, reply).0.valid(),
{
}

/// What the installer knows after these replies.
pub open spec fn model_after(replies: Seq<ReplyView>) -> InstallModel
    decreases replies.len(),
{
    if replies.len() == 0 {
        opening().0
    } else {
        advance(model_after(replies.drop_last()), replies.last()).0
    }
}

/// What the installer does after these replies.
pub open spec fn turn_after(replies: Seq<ReplyView>) -> TurnView {
    if replies.len() == 0 {
        opening().1
    } else {
        advance(model_after(replies.drop_last()), replies.last()).1
    }
}

/// Whether a command changes what is on a disk: the partition table, or a file
/// system.
pub open spec fn alters_disk(command: CommandView) -> bool {
    command.program == "sgdisk"@ || occurs_at(command.program, "mkfs."@, 0)
}

/// Whether a request is to run a command that changes what is on a disk.
pub open spec fn asks_to_alter(request: RequestView) -> bool {
    match request {
        RequestView::Run { message, command } => alters_disk(command),
        RequestView::Settle { message, command, pause_ms } => alters_disk(command),
        RequestView::Capture(command) => alters_disk(command),
        RequestView::Launch(command) => alters_disk(command),
        _ => false,
    }
}

/// Whether reply `k` was a yes to erasing `disk`, which the warning had named.
pub open spec fn consented(replies: Seq<ReplyView>, k: int, disk: Seq<char>) -> bool {
    &&& 0 <= k < replies.len()
    &&& turn_after(replies.take(k)).request is Confirm
    &&& turn_after(replies.take(k)).lines == seq![warning(disk)]
    &&& replies[k] == ReplyView::Confirmed(true)
}

/// Whether `target` is `disk` or one of its first two partitions.
pub open spec fn on_disk(target: Seq<char>, disk: Seq<char>) -> bool {
    target == disk || target == partition_of(disk, "1"@) || target == partition_of(disk, "2"@)
}

/// Law: no disk is changed but the one that the warning named, and only after the
/// user has said yes to it.
pub proof fn law_no_change_without_consent(replies: Seq<ReplyView>)
    requires
        asks_to_alter(turn_after(replies).request),
    ensures
        exists|k: int, disk: Seq<char>|
            consented(replies, k, disk) && turn_after(replies).request is Run && on_disk(
                turn_after(replies).request->Run_command.args.last(),
                disk,
            ),
{
    lemma_consent(replies);
    let m = model_after(replies);
    lemma_programs();
    lemma_turn_fits(replies);
    assert(m.stage == Stage::Partitioning);
    lemma_partition_targets(m.uefi, m.disk, m.fs, m.at);
    let k = choose|k: int| consented(replies, k, m.disk);
    assert(consented(replies, k, m.disk));
}

/// Whether a request changes nothing on the machine but its network: the user is asked,
/// a path is looked at, or `nmcli` or `lsblk` is run.
pub open spec fn harmless(request: RequestView) -> bool {
    match request {
        RequestView::Run { message, command } => command.program == "nmcli"@,
        RequestView::Settle { message, command, pause_ms } => command.program == "nmcli"@,
        RequestView::Capture(command) => command.program == "nmcli"@ || command == lsblk(),
        RequestView::Launch(command) => false,
        RequestView::CreateDir(path) => false,
        RequestView::WriteFile { path, contents } => false,
        RequestView::Copy { from, to } => false,
        RequestView::Remove(path) => false,
        RequestView::Install { target, dir } => false,
        _ => true,
    }
}

/// Law: up to the user's yes to the warning nothing is run but `nmcli` and `lsblk`, and
/// nothing is created, written, copied or removed.
pub proof fn law_nothing_is_touched_without_consent(replies: Seq<ReplyView>)
    requires
        !harmless(turn_after(replies).request),
    ensures
        exists|k: int, disk: Seq<char>| consented(replies, k, disk),
{
    lemma_early(replies);
    lemma_consent(replies);
    let disk = model_after(replies).disk;
    let k = choose|k: int| consented(replies, k, disk);
    assert(consented(replies, k, disk));
}

/// Before the user's yes every request is harmless.
proof fn lemma_early(replies: Seq<ReplyView>)
    ensures
        past_consent(model_after(replies).stage) || harmless(turn_after(replies).request),
{
    lemma_turn_fits(replies);
    if replies.len() > 0 {
        lemma_turn_fits(replies.drop_last());
        lemma_early_step(model_after(replies.drop_last()), replies.last());
    }
}

/// A step that does not come after the user's yes asks for what is harmless.
proof fn lemma_early_step(m: InstallModel, reply: ReplyView)
    requires
        m.valid(),
        m.stage == Stage::Connecting ==> m.plan.len() == 1,
    ensures
        past_consent(advance(m, reply).0.stage) || harmless(advance(m, reply).1.request),
{
}

/// Law: a user who does not say yes ends the installation.
pub proof fn law_no_means_no(m: InstallModel, reply: ReplyView)
    requires
        m.stage == Stage::Confirmation,
        reply != ReplyView::Confirmed(true),
    ensures
        advance(m, reply).1.request is End,
        advance(m, reply).0.stage == Stage::Ended,
{
}

/// Law: once the installation has ended, nothing more is asked for.
pub proof fn law_the_end_is_final(m: InstallModel, reply: ReplyView)
    requires
        m.stage == Stage::Ended,
    ensures
        advance(m, reply).1.request is End,
        advance(m, reply).1.lines.len() == 0,
        advance(m, reply).0 == m,
{
}

/// Law: where a command of a plan fails, the installation ends with its error, and
/// no further command is run.
pub proof fn law_failure_stops_the_plan(m: InstallModel, result: RunView)
    requires
        m.valid(),
        m.running(),
        m.plan[m.at] is Run,
        run_error(m.plan[m.at]->Run_command.program, result) is Some,
    ensures
        advance(m, ReplyView::Ran(result)).0.stage == Stage::Ended,
        advance(m, ReplyView::Ran(result)).1.request == RequestView::End(
            OutcomeView::Failed(
                m.plan[m.at]->Run_failure + ": "@ + run_error(
                    m.plan[m.at]->Run_command.program,
                    result,
                )->0,
            ),
        ),
{
}

/// Whether the request of a stage has to be met before the installation can go on.
pub open spec fn must_be_met(stage: Stage) -> bool {
    match stage {
        Stage::Interfaces
        | Stage::Networks
        | Stage::Password
        | Stage::Confirmation
        | Stage::GlacierDir
        | Stage::HostsDir
        | Stage::WriteFlake
        | Stage::WriteConfiguration
        | Stage::WriteHome
        | Stage::HardwareCopy
        | Stage::HostRead
        | Stage::HostWrite
        | Stage::Installing => true,
        _ => false,
    }
}

/// Law: a request that has to be met and cannot be ends the installation with the
/// error that was hit.
pub proof fn law_errors_are_not_passed_over(m: InstallModel)
    requires
        must_be_met(m.stage),
    ensures
        advance(m, ReplyView::Failed) == broken(m),
{
}

/// How far the installation has come, stage by stage.
pub open spec fn rank(stage: Stage) -> int {
    match stage {
        Stage::Firmware => 33,
        Stage::NetworkKind => 32,
        Stage::Interfaces => 31,
        Stage::Interface => 30,
        Stage::TypedInterface => 29,
        Stage::Rescan => 31,
        Stage::Networks => 30,
        Stage::Network => 29,
        Stage::TypedNetwork => 28,
        Stage::Password => 27,
        Stage::Connecting => 26,
        Stage::Disks => 25,
        Stage::Disk => 24,
        Stage::TypedDisk => 23,
        Stage::FileSystem => 22,
        Stage::Confirmation => 21,
        Stage::Partitioning => 20,
        Stage::Hardware => 19,
        Stage::GlacierDir => 18,
        Stage::HostsDir => 17,
        Stage::Asking => 16,
        Stage::WriteFlake => 15,
        Stage::WriteConfiguration => 14,
        Stage::WriteHome => 13,
        Stage::HardwareExists => 12,
        Stage::HardwareCopy => 11,
        Stage::HardwareRemove => 10,
        Stage::HostExists => 9,
        Stage::HostRead => 8,
        Stage::HostWrite => 7,
        Stage::Installing => 6,
        Stage::NextAction => 5,
        Stage::Launching => 4,
        Stage::Ended => 0,
    }
}

/// What is left to do within the stage: steps of the plan, or questions.
pub open spec fn left(m: InstallModel) -> int {
    if m.running() {
        m.plan.len() - m.at
    } else if m.stage == Stage::Asking {
        questions().len() - m.answers.len()
    } else {
        0
    }
}

/// Law: every reply brings the installation nearer to its end.
pub proof fn law_progress(m: InstallModel, reply: ReplyView)
    requires
        m.valid(),
        m.stage != Stage::Ended,
    ensures
        ({
            let n = advance(m, reply).0;
            rank(n.stage) < rank(m.stage) || (rank(n.stage) == rank(m.stage) && 0 <= left(n)
                < left(m))
        }),
{
}

/// Law: files are written under the directory of the configuration only.
pub proof fn law_writes_stay_in_the_directory(m: InstallModel, reply: ReplyView)
    requires
        advance(m, reply).1.request is WriteFile,
    ensures
        occurs_at(advance(m, reply).1.request->WriteFile_path, GLACIER_DIR@ + "/"@, 0),
{
    reveal_strlit("/mnt/glacier");
    reveal_strlit("/");
    reveal_strlit("/flake.nix");
    reveal_strlit("/configuration.nix");
    reveal_strlit("/home.nix");
    reveal_strlit("/hosts/");
    let dir = GLACIER_DIR@ + "/"@;
    let path = advance(m, reply).1.request->WriteFile_path;
    assert(path.subrange(0, dir.len() as int) =~= dir);
}

/// A request to write a file of the new configuration.
pub open spec fn file_request(name: Seq<char>, template: Seq<char>, slots: Seq<SlotView>) -> RequestView {
    RequestView::WriteFile { path: GLACIER_DIR@ + name, contents: filled(template, slots) }
}

/// Whether a request was made and met.
pub open spec fn was_met(replies: Seq<ReplyView>, request: RequestView) -> bool {
    exists|k: int| met_at(replies, request, k)
}

/// Whether a request was made and met by reply `k`.
pub open spec fn met_at(replies: Seq<ReplyView>, request: RequestView, k: int) -> bool {
    &&& 0 <= k < replies.len()
    &&& turn_after(replies.take(k)).request == request
    &&& replies[k] == ReplyView::Done
}

/// The request to write the flake.
pub open spec fn flake_request(a: AnswersView) -> RequestView {
    file_request("/flake.nix"@, FLAKE_TEMPLATE@, flake_slots(a))
}

/// The request to write the configuration of the system.
pub open spec fn configuration_request(a: AnswersView) -> RequestView {
    file_request("/configuration.nix"@, CONFIGURATION_TEMPLATE@, configuration_slots(a))
}

/// The request to write the configuration of the home directory.
pub open spec fn home_request(a: AnswersView) -> RequestView {
    file_request("/home.nix"@, HOME_TEMPLATE@, home_slots(a))
}

/// Law: what is installed is the system that the user named, from the three files
/// for the user's answers, each of which has been written.
pub proof fn law_what_was_asked_for_is_installed(replies: Seq<ReplyView>)
    requires
        turn_after(replies).request is Install,
    ensures
        ({
            let a = answers_of(model_after(replies).answers);
            &&& turn_after(replies).request == RequestView::Install {
                target: ".#"@ + a.system_name,
                dir: GLACIER_DIR@,
            }
            &&& was_met(replies, flake_request(a))
            &&& was_met(replies, configuration_request(a))
            &&& was_met(replies, home_request(a))
        }),
{
    lemma_written(replies);
    assert(replies.len() > 0);
    lemma_turn_fits(replies.drop_last());
    lemma_order(model_after(replies.drop_last()), replies.last());
}

/// Whether the stage comes after the three files were written.
spec fn past_writing(stage: Stage) -> bool {
    match stage {
        Stage::HardwareExists
        | Stage::HardwareCopy
        | Stage::HardwareRemove
        | Stage::HostExists
        | Stage::HostRead
        | Stage::HostWrite
        | Stage::Installing => true,
        _ => false,
    }
}

/// Which stage the writing of each file comes after.
proof fn lemma_order(m: InstallModel, reply: ReplyView)
    requires
        m.valid(),
    ensures
        ({
            let (n, turn) = advance(m, reply);
            let a = answers_of(n.answers);
            &&& n.stage == Stage::WriteFlake ==> turn.request == flake_request(a)
            &&& n.stage == Stage::WriteConfiguration ==> m.stage == Stage::WriteFlake && reply
                == ReplyView::Done && n.answers == m.answers && turn.request
                == configuration_request(a)
            &&& n.stage == Stage::WriteHome ==> m.stage == Stage::WriteConfiguration && reply
                == ReplyView::Done && n.answers == m.answers && turn.request == home_request(a)
            &&& past_writing(n.stage) ==> n.answers == m.answers && (past_writing(m.stage) || (
            m.stage == Stage::WriteHome && reply == ReplyView::Done))
            &&& turn.request is Install ==> n.stage == Stage::Installing && turn.request
                == RequestView::Install { target: ".#"@ + a.system_name, dir: GLACIER_DIR@ }
        }),
{
}

/// What was written before a stage.
proof fn lemma_written(replies: Seq<ReplyView>)
    ensures
        ({
            let m = model_after(replies);
            let a = answers_of(m.answers);
            let request = turn_after(replies).request;
            &&& m.stage == Stage::WriteFlake ==> request == flake_request(a)
            &&& m.stage == Stage::WriteConfiguration ==> was_met(replies, flake_request(a))
                && request == configuration_request(a)
            &&& m.stage == Stage::WriteHome ==> was_met(replies, flake_request(a)) && was_met(
                replies,
                configuration_request(a),
            ) && request == home_request(a)
            &&& past_writing(m.stage) ==> was_met(replies, flake_request(a)) && was_met(
                replies,
                configuration_request(a),
            ) && was_met(replies, home_request(a))
        }),
    decreases replies.len(),
{
    if replies.len() > 0 {
        let front = replies.drop_last();
        let m = model_after(front);
        let a = answers_of(m.answers);
        lemma_written(front);
        lemma_turn_fits(front);
        lemma_order(m, replies.last());
        lemma_still_met(replies, flake_request(a));
        lemma_still_met(replies, configuration_request(a));
        lemma_still_met(replies, home_request(a));
    }
}

/// What was met stays so, and what the last reply met is met.
proof fn lemma_still_met(replies: Seq<ReplyView>, request: RequestView)
    requires
        replies.len() > 0,
    ensures
        was_met(replies.drop_last(), request) ==> was_met(replies, request),
        turn_after(replies.drop_last()).request == request && replies.last() == ReplyView::Done
            ==> was_met(replies, request),
{
    let front = replies.drop_last();
    if was_met(front, request) {
        let k = choose|k: int| met_at(front, request, k);
        assert(replies.take(k) =~= front.take(k));
        assert(met_at(replies, request, k));
    }
    if turn_after(front).request == request && replies.last() == ReplyView::Done {
        let k = front.len() as int;
        assert(replies.take(k) =~= front);
        assert(met_at(replies, request, k));
    }
}

/// Whether the stage comes after the user has said yes.
spec fn past_consent(stage: Stage) -> bool {
    rank(stage) <= 20 && stage != Stage::Ended
}

/// The plan that is under way at a stage, and how the last turn fits it.
spec fn fits(m: InstallModel, t: TurnView) -> bool {
    match m.stage {
        Stage::Connecting => {
            &&& m.plan.len() == 1
            &&& m.plan[0] is Run
            &&& m.plan[0]->Run_command.program == "nmcli"@
            &&& t.request == step_request(m.plan[m.at])
        },
        Stage::Partitioning => {
            &&& m.plan == partition_steps(m.uefi, m.disk, m.fs)
            &&& t.request == step_request(m.plan[m.at])
        },
        Stage::Hardware => {
            &&& m.plan.len() == 1
            &&& m.plan[0] is Run
            &&& m.plan[0]->Run_command.program == "nixos-generate-config"@
            &&& t.request == step_request(m.plan[m.at])
        },
        Stage::Interfaces | Stage::Rescan | Stage::Networks => match t.request {
            RequestView::Capture(command) => command.program == "nmcli"@,
            RequestView::Settle { message, command, pause_ms } => command.program == "nmcli"@,
            _ => false,
        },
        Stage::Disks => t.request == RequestView::Capture(lsblk()),
        Stage::Launching => match t.request {
            RequestView::Launch(command) => command.program == "reboot"@ || command.program
                == "shutdown"@ || command.program == "/bin/sh"@,
            _ => false,
        },
        Stage::Confirmation => t.request is Confirm && t.lines == seq![warning(m.disk)],
        _ => !asks_to_alter(t.request),
    }
}

/// The last turn always fits the stage.
proof fn lemma_turn_fits(replies: Seq<ReplyView>)
    ensures
        model_after(replies).valid(),
        fits(model_after(replies), turn_after(replies)),
    decreases replies.len(),
{
    if replies.len() > 0 {
        lemma_turn_fits(replies.drop_last());
        lemma_advance_valid(model_after(replies.drop_last()), replies.last());
        lemma_step_fits(model_after(replies.drop_last()), turn_after(replies.drop_last()), replies.last());
    }
}

/// A step keeps the turn fitting the stage.
proof fn lemma_step_fits(m: InstallModel, t: TurnView, reply: ReplyView)
    requires
        m.valid(),
        fits(m, t),
    ensures
        fits(advance(m, reply).0, advance(m, reply).1),
{
}

/// After the user has said yes, the yes is among the replies.
proof fn lemma_consent(replies: Seq<ReplyView>)
    ensures
        past_consent(model_after(replies).stage) ==> exists|k: int|
            consented(replies, k, model_after(replies).disk),
    decreases replies.len(),
{
    if replies.len() > 0 {
        let front = replies.drop_last();
        let m = model_after(front);
        let n = model_after(replies);
        lemma_consent(front);
        lemma_turn_fits(front);
        if past_consent(n.stage) {
            assert(n.disk == m.disk);
            if past_consent(m.stage) {
                let k = choose|k: int| consented(front, k, m.disk);
                assert(replies.take(k) =~= front.take(k));
                assert(consented(replies, k, n.disk));
            } else {
                assert(m.stage == Stage::Confirmation);
                let k = front.len() as int;
                assert(replies.take(k) =~= front);
                assert(consented(replies, k, n.disk));
            }
        }
    }
}

/// None of the commands outside the plan for the disk changes a disk.
proof fn lemma_programs()
    ensures
        !occurs_at("nmcli"@, "mkfs."@, 0) && "nmcli"@ != "sgdisk"@,
        !occurs_at("lsblk"@, "mkfs."@, 0) && "lsblk"@ != "sgdisk"@,
        !occurs_at("reboot"@, "mkfs."@, 0) && "reboot"@ != "sgdisk"@,
        !occurs_at("shutdown"@, "mkfs."@, 0) && "shutdown"@ != "sgdisk"@,
        !occurs_at("/bin/sh"@, "mkfs."@, 0) && "/bin/sh"@ != "sgdisk"@,
        !occurs_at("partprobe"@, "mkfs."@, 0) && "partprobe"@ != "sgdisk"@,
        !occurs_at("mount"@, "mkfs."@, 0) && "mount"@ != "sgdisk"@,
        !occurs_at("mkdir"@, "mkfs."@, 0) && "mkdir"@ != "sgdisk"@,
        !occurs_at("nixos-generate-config"@, "mkfs."@, 0) && "nixos-generate-config"@
            != "sgdisk"@,
{
    reveal_strlit("mkfs.");
    reveal_strlit("sgdisk");
    reveal_strlit("nmcli");
    reveal_strlit("lsblk");
    reveal_strlit("reboot");
    reveal_strlit("shutdown");
    reveal_strlit("/bin/sh");
    reveal_strlit("partprobe");
    reveal_strlit("mount");
    reveal_strlit("mkdir");
    reveal_strlit("nixos-generate-config");
    assert("sgdisk"@[0] == 's' && "sgdisk"@[1] == 'g');
    assert("nmcli"@[0] == 'n');
    assert("lsblk"@[0] == 'l');
    assert("reboot"@[0] == 'r');
    assert("shutdown"@[1] == 'h');
    assert("/bin/sh"@[0] == '/');
    assert("partprobe"@[0] == 'p');
    assert("mount"@[0] == 'm');
    assert("mkdir"@[0] == 'm');
    assert("nixos-generate-config"@[0] == 'n');
    lemma_differs("nmcli"@, 0);
    lemma_differs("lsblk"@, 0);
    lemma_differs("reboot"@, 0);
    lemma_differs("shutdown"@, 0);
    lemma_differs("/bin/sh"@, 0);
    lemma_differs("partprobe"@, 0);
    lemma_differs("mount"@, 1);
    lemma_differs("mkdir"@, 2);
    lemma_differs("nixos-generate-config"@, 0);
}

/// A program that differs from the one that makes file systems at one position is
/// not it.
proof fn lemma_differs(program: Seq<char>, i: int)
    requires
        0 <= i < 5,
        i < program.len() ==> program[i] != "mkfs."@[i],
        "mkfs."@.len() == 5,
    ensures
        !occurs_at(program, "mkfs."@, 0),
{
    if occurs_at(program, "mkfs."@, 0) {
        assert(program.subrange(0, 5)[i] == program[i]);
    }
}

/// What the steps of the plan for the disk work on.
proof fn lemma_partition_targets(uefi: bool, disk: Seq<char>, fs: Seq<char>, i: int)
    requires
        0 <= i < partition_steps(uefi, disk, fs).len(),
        asks_to_alter(step_request(partition_steps(uefi, disk, fs)[i])),
    ensures
        partition_steps(uefi, disk, fs)[i] is Run,
        on_disk(partition_steps(uefi, disk, fs)[i]->Run_command.args.last(), disk),
{
    lemma_programs();
}

} // verus!
