//! The course of an installation and of the setting up of a configuration: what each
//! reply leads to.

use vstd::prelude::*;

use crate::config::{
    configuration_slots, flake_slots, home_slots, with_boot_block, CONFIGURATION_TEMPLATE,
    FLAKE_TEMPLATE, HOME_TEMPLATE,
};
use crate::flow::{LineView, OutcomeView, ReplyView, RequestView, TurnView};
use crate::init;
use crate::install::{advance, on_disk, opening, InstallModel, Stage};
use crate::partition::{law_the_plan_with_legacy_firmware, law_the_plan_with_uefi_firmware, runs};
use crate::plan::StepView;
use crate::style::{span, Style};
use crate::survey::{answer, answers_of, question_request, questions};
use crate::system::{disks_in, interfaces_in, networks_in, CommandView, RunView};
use crate::template::filled;
use crate::text::{lines_of, lossy, trimmed};

verus! {

/// The reply that chooses option `i`.
pub open spec fn choose_option(i: usize) -> ReplyView {
    ReplyView::Choice(Some(i))
}

/// The reply of a command that succeeds, whatever it writes.
pub open spec fn went_well(stderr: Seq<u8>) -> ReplyView {
    ReplyView::Ran(RunView::Exited { success: true, stderr })
}

/// Whether a request runs this command, under a spinner.
pub open spec fn asks_to_run(
    request: RequestView,
    program: Seq<char>,
    args: Seq<Seq<char>>,
) -> bool {
    match request {
        RequestView::Run { message, command } => command.program == program && command.args == args,
        _ => false,
    }
}

/// Whether a request reads what this command prints.
pub open spec fn asks_to_read(
    request: RequestView,
    program: Seq<char>,
    args: Seq<Seq<char>>,
) -> bool {
    match request {
        RequestView::Capture(command) => command.program == program && command.args == args,
        _ => false,
    }
}

/// Whether a request hands the terminal to this command.
pub open spec fn asks_to_launch(
    request: RequestView,
    program: Seq<char>,
    args: Seq<Seq<char>>,
) -> bool {
    match request {
        RequestView::Launch(command) => command.program == program && command.args == args,
        _ => false,
    }
}

/// A heading.
pub open spec fn headed(text: Seq<char>) -> LineView {
    LineView {
        stderr: false,
        spans: seq![span(Style::Plain, "\n"@), span(Style::Dimmed, text)],
    }
}

/// A line that says that something is done.
pub open spec fn ticked(text: Seq<char>) -> LineView {
    LineView {
        stderr: false,
        spans: seq![
            span(Style::Plain, "  "@),
            span(Style::Green, "✔"@),
            span(Style::Plain, " "@),
            span(Style::Dimmed, text),
        ],
    }
}

/// A line that says what is going on.
pub open spec fn pointed(text: Seq<char>) -> LineView {
    LineView {
        stderr: false,
        spans: seq![
            span(Style::Plain, "  "@),
            span(Style::Cyan, "→"@),
            span(Style::Plain, " "@),
            span(Style::Dimmed, text),
        ],
    }
}

/// The warning that this disk will be erased.
pub open spec fn warned(disk: Seq<char>) -> LineView {
    LineView {
        stderr: false,
        spans: seq![
            span(Style::Plain, "\n  "@),
            span(Style::YellowBold, "⚠"@),
            span(Style::Plain, " "@),
            span(Style::Yellow, "This will"@),
            span(Style::Plain, " "@),
            span(Style::RedBold, "ERASE ALL DATA"@),
            span(Style::Plain, " "@),
            span(Style::Yellow, "on "@ + disk + "!"@),
        ],
    }
}

/// Law: each thing that the installer knows is set by the reply that tells it, and by no
/// other.
pub proof fn law_what_is_known_stays(m: InstallModel, reply: ReplyView)
    ensures
        ({
            let n = advance(m, reply).0;
            &&& m.stage != Stage::Firmware ==> n.uefi == m.uefi
            &&& m.stage != Stage::Network && m.stage != Stage::TypedNetwork ==> n.ssid == m.ssid
            &&& m.stage != Stage::Disk && m.stage != Stage::TypedDisk ==> n.disk == m.disk
            &&& m.stage != Stage::FileSystem ==> n.fs == m.fs
            &&& m.stage != Stage::HostsDir && m.stage != Stage::Asking ==> n.answers == m.answers
        }),
{
}

/// Law: the installer begins with the firmware, which is UEFI where the user chooses the
/// first kind and not where the second, and goes on to the network.
pub proof fn law_the_firmware_is_what_was_chosen(m: InstallModel, i: usize)
    requires
        m.stage == Stage::Firmware,
        i < 2,
    ensures
        opening().0.stage == Stage::Firmware,
        opening().1.request == (RequestView::Select {
            prompt: "Firmware type"@,
            options: seq!["UEFI"@, "BIOS/Legacy"@],
        }),
        opening().1.lines == seq![
            LineView {
                stderr: false,
                spans: seq![
                    span(Style::Plain, "🏔️  "@),
                    span(Style::BrightWhiteBold, "Glacier OS Installer"@),
                    span(Style::Plain, "\n"@),
                ],
            },
        ],
        ({
            let (n, turn) = advance(m, choose_option(i));
            &&& n == (InstallModel { stage: Stage::NetworkKind, uefi: i == 0, ..m })
            &&& turn.lines == seq![headed("── Network ──────────────────────────────"@)]
            &&& turn.request == (RequestView::Select {
                prompt: "Network connection type"@,
                options: seq!["Ethernet"@, "Wi-Fi"@],
            })
        }),
        advance(m, ReplyView::Choice(None)) == advance(m, choose_option(0)),
{
    reveal_strlit("UEFI");
    reveal_strlit("BIOS/Legacy");
    assert("UEFI"@[0] == 'U' && "BIOS/Legacy"@[0] == 'B');
}

/// Law: the kind of network that was chosen is looked for: the interfaces, or the
/// networks after a scan and a pause.
pub proof fn law_the_kind_of_network_is_what_was_chosen(m: InstallModel, scan: ReplyView)
    requires
        m.stage == Stage::NetworkKind,
    ensures
        ({
            let (n, turn) = advance(m, choose_option(0));
            &&& n.stage == Stage::Interfaces
            &&& asks_to_read(turn.request, "nmcli"@, seq!["-t"@, "-f"@, "DEVICE,TYPE"@, "device"@])
        }),
        ({
            let (n, turn) = advance(m, choose_option(1));
            let (after, next) = advance(n, scan);
            &&& turn.request == (RequestView::Settle {
                message: seq![span(Style::Plain, "Scanning for Wi-Fi networks..."@)],
                command: CommandView {
                    program: "nmcli"@,
                    args: seq!["device"@, "wifi"@, "rescan"@],
                },
                pause_ms: 2000,
            })
            &&& after.stage == Stage::Networks
            &&& asks_to_read(
                next.request,
                "nmcli"@,
                seq!["-t"@, "-f"@, "SSID"@, "device"@, "wifi"@, "list"@],
            )
        }),
        advance(m, ReplyView::Choice(None)) == advance(m, choose_option(0)),
{
    reveal_strlit("Ethernet");
    reveal_strlit("Wi-Fi");
    assert("Ethernet"@[0] == 'E' && "Wi-Fi"@[0] == 'W');
}

/// Whether the installer connects through this interface.
pub open spec fn connects_through(m: InstallModel, turn: TurnView, name: Seq<char>) -> bool {
    &&& m.stage == Stage::Connecting
    &&& m.at == 0
    &&& m.plan.len() == 1
    &&& runs(m.plan[0], "nmcli"@, seq!["device"@, "connect"@, name], "Network error"@)
    &&& asks_to_run(turn.request, "nmcli"@, seq!["device"@, "connect"@, name])
    &&& turn.request->Run_message == seq![
        span(Style::Plain, "Connecting via "@),
        span(Style::Cyan, name),
        span(Style::Plain, "..."@),
    ]
}

/// Law: the machine is connected through the interface that the user chooses among those
/// that are listed, or types where none is.
pub proof fn law_the_chosen_interface_is_connected(
    m: InstallModel,
    success: bool,
    stdout: Seq<u8>,
    i: usize,
    name: Seq<char>,
)
    requires
        m.stage == Stage::Interfaces,
    ensures
        ({
            let found = interfaces_in(lines_of(lossy(stdout)));
            let (n, turn) = advance(m, ReplyView::Output { success, stdout });
            let (picked, connect) = advance(n, choose_option(i));
            let (first, connect_first) = advance(n, ReplyView::Choice(None));
            let (typed, connect_typed) = advance(n, ReplyView::Text(Some(name)));
            let (usual, connect_usual) = advance(n, ReplyView::Text(None));
            &&& found.len() > 0 ==> turn.request == (RequestView::Select {
                prompt: "Select ethernet interface"@,
                options: found,
            })
            &&& i < found.len() ==> connects_through(picked, connect, found[i as int])
            &&& found.len() > 0 ==> connects_through(first, connect_first, found[0])
            &&& found.len() == 0 ==> turn.request == (RequestView::Input {
                prompt: "Ethernet interface (e.g. eth0)"@,
                default: "eth0"@,
            })
            &&& found.len() == 0 ==> connects_through(typed, connect_typed, name)
            &&& found.len() == 0 ==> connects_through(usual, connect_usual, "eth0"@)
        }),
{
}

/// Whether the installer joins this network with this password.
pub open spec fn joins(
    m: InstallModel,
    turn: TurnView,
    name: Seq<char>,
    password: Seq<char>,
) -> bool {
    let args = seq!["device"@, "wifi"@, "connect"@, name, "password"@, password];
    &&& m.stage == Stage::Connecting
    &&& m.at == 0
    &&& m.plan.len() == 1
    &&& runs(m.plan[0], "nmcli"@, args, "Wi-Fi error"@)
    &&& asks_to_run(turn.request, "nmcli"@, args)
    &&& turn.request->Run_message == seq![
        span(Style::Plain, "Connecting to "@),
        span(Style::Cyan, name),
        span(Style::Plain, "..."@),
    ]
}

/// Law: the network that the user chooses among those that are listed, or types where none
/// is, is joined with the password that the user types.
pub proof fn law_the_chosen_network_is_joined(
    m: InstallModel,
    success: bool,
    stdout: Seq<u8>,
    i: usize,
    name: Seq<char>,
    password: Seq<char>,
)
    requires
        m.stage == Stage::Networks,
    ensures
        ({
            let found = networks_in(lines_of(lossy(stdout)));
            let secret = ReplyView::Secret(password);
            let (n, turn) = advance(m, ReplyView::Output { success, stdout });
            let (picked, ask) = advance(n, choose_option(i));
            let (joined, connect) = advance(picked, secret);
            let (typed, ask_typed) = advance(n, ReplyView::Text(Some(name)));
            let (joined_typed, connect_typed) = advance(typed, secret);
            let (joined_empty, connect_empty) = advance(
                advance(n, ReplyView::Text(None)).0,
                secret,
            );
            let prompt = RequestView::Secret { prompt: "Wi-Fi password"@ };
            &&& found.len() > 0 ==> turn.request == (RequestView::Select {
                prompt: "Select Wi-Fi network"@,
                options: found,
            })
            &&& i < found.len() ==> ask.request == prompt && joins(
                joined,
                connect,
                found[i as int],
                password,
            )
            &&& found.len() == 0 ==> turn.request == (RequestView::Input {
                prompt: "Wi-Fi SSID"@,
                default: ""@,
            })
            &&& found.len() > 0 ==> advance(n, ReplyView::Choice(None)) == advance(
                n,
                choose_option(0),
            )
            &&& found.len() == 0 ==> ask_typed.request == prompt && joins(
                joined_typed,
                connect_typed,
                name,
                password,
            )
            &&& found.len() == 0 ==> joins(joined_empty, connect_empty, ""@, password)
        }),
{
}

/// Law: once the machine is connected, the disks are listed, loop devices left out.
pub proof fn law_after_the_network_the_disks(m: InstallModel, stderr: Seq<u8>)
    requires
        m.stage == Stage::Connecting,
        m.at == 0,
        m.plan.len() == 1,
        m.plan[0] is Run,
    ensures
        ({
            let (n, turn) = advance(m, went_well(stderr));
            &&& n.stage == Stage::Disks
            &&& turn.lines == seq![
                ticked("Network connected."@),
                headed("── Disk ─────────────────────────────────"@),
            ]
            &&& asks_to_read(
                turn.request,
                "lsblk"@,
                seq!["-dpno"@, "NAME,SIZE,MODEL"@, "--exclude"@, "7"@],
            )
        }),
{
}

/// Law: the file systems that are offered, and the warning before the disk is erased, which
/// names it.
pub proof fn law_the_warning_names_the_disk(m: InstallModel, j: usize)
    requires
        m.stage == Stage::FileSystem,
        j < 3,
    ensures
        ({
            let (n, turn) = advance(m, choose_option(j));
            &&& n == (InstallModel {
                stage: Stage::Confirmation,
                fs: if j == 0 {
                    "ext4"@
                } else if j == 1 {
                    "btrfs"@
                } else {
                    "xfs"@
                },
                ..m
            })
            &&& turn.lines == seq![warned(m.disk)]
            &&& turn.request == (RequestView::Confirm {
                prompt: "Are you sure you want to continue?"@,
            })
        }),
        advance(m, ReplyView::Choice(None)) == advance(m, choose_option(0)),
{
}

/// Whether this disk is what the user is warned of and what a yes works on: it is erased
/// first, and every command of the plan that changes a disk works on it or on one of its
/// partitions.
pub open spec fn is_the_target(m: InstallModel, disk: Seq<char>, j: usize, k: int) -> bool {
    let (asked, warning) = advance(m, choose_option(j));
    let (n, turn) = advance(asked, ReplyView::Confirmed(true));
    &&& m.disk == disk
    &&& warning.lines == seq![warned(disk)]
    &&& n.stage == Stage::Partitioning
    &&& n.disk == disk
    &&& asks_to_run(turn.request, "sgdisk"@, seq!["--zap-all"@, disk])
    &&& 0 <= k < n.plan.len() && n.plan[k] is Run && (n.plan[k]->Run_command.program == "sgdisk"@
        || n.plan[k]->Run_failure == "mkfs.fat failed"@ || n.plan[k]->Run_failure
        == "mkfs failed"@) ==> on_disk(n.plan[k]->Run_command.args.last(), disk)
}

/// Law: the target is the device of the disk whose label the user chooses, or the path that
/// the user types where no disk is listed. The warning names it, and a yes erases it and no
/// other.
pub proof fn law_the_chosen_disk_is_the_target(
    m: InstallModel,
    stdout: Seq<u8>,
    i: usize,
    name: Seq<char>,
    j: usize,
    k: int,
)
    requires
        m.stage == Stage::Disks,
        j < 3,
    ensures
        ({
            let found = disks_in(lines_of(lossy(stdout)));
            let (n, turn) = advance(m, ReplyView::Output { success: true, stdout });
            let (picked, next) = advance(n, choose_option(i));
            let typed = advance(n, ReplyView::Text(Some(name))).0;
            let systems = RequestView::Select {
                prompt: "Root filesystem type"@,
                options: seq!["ext4"@, "btrfs"@, "xfs"@],
            };
            &&& found.len() > 0 ==> turn.request is Select && turn.request->Select_prompt
                == "Select target disk"@ && turn.request->Select_options.len() == found.len()
            &&& i < found.len() ==> turn.request->Select_options[i as int] == found[i as int].label
            &&& i < found.len() ==> next.request == systems && is_the_target(
                picked,
                found[i as int].device,
                j,
                k,
            )
            &&& found.len() > 0 ==> advance(n, ReplyView::Choice(None)) == advance(
                n,
                choose_option(0),
            )
            &&& found.len() == 0 ==> turn.request == (RequestView::Input {
                prompt: "Target disk (e.g. /dev/sda)"@,
                default: "/dev/sda"@,
            })
            &&& found.len() == 0 ==> is_the_target(typed, name, j, k)
        }),
{
    let found = disks_in(lines_of(lossy(stdout)));
    let (n, turn) = advance(m, ReplyView::Output { success: true, stdout });
    let picked = advance(n, choose_option(i)).0;
    let typed = advance(n, ReplyView::Text(Some(name))).0;
    if i < found.len() {
        lemma_target(picked, found[i as int].device, j, k);
    }
    if found.len() == 0 {
        lemma_target(typed, name, j, k);
    }
}

/// The disk that is known when the file system is asked for is the target.
proof fn lemma_target(m: InstallModel, disk: Seq<char>, j: usize, k: int)
    requires
        m.stage == Stage::FileSystem,
        m.disk == disk,
        j < 3,
    ensures
        is_the_target(m, disk, j, k),
{
    let asked = advance(m, choose_option(j)).0;
    law_the_warning_names_the_disk(m, j);
    law_the_plan_with_uefi_firmware(disk, asked.fs);
    law_the_plan_with_legacy_firmware(disk, asked.fs);
    lemma_other_programs();
}

/// The programs and errors of the plan for a disk, told apart.
proof fn lemma_other_programs()
    ensures
        "mount"@ != "sgdisk"@,
        "mkdir"@ != "sgdisk"@,
        "mount root failed"@ != "mkfs failed"@,
        "mount root failed"@ != "mkfs.fat failed"@,
        "mount boot failed"@ != "mkfs failed"@,
        "mount boot failed"@ != "mkfs.fat failed"@,
        "mkdir boot failed"@ != "mkfs failed"@,
        "mkdir boot failed"@ != "mkfs.fat failed"@,
{
    reveal_strlit("sgdisk");
    reveal_strlit("mount");
    reveal_strlit("mkdir");
    reveal_strlit("mkfs failed");
    reveal_strlit("mkfs.fat failed");
    reveal_strlit("mount root failed");
    reveal_strlit("mount boot failed");
    reveal_strlit("mkdir boot failed");
    assert("sgdisk"@[0] == 's' && "mount"@[0] == 'm' && "mkdir"@[0] == 'm');
    assert("mkfs failed"@[1] == 'k' && "mkfs failed"@[2] == 'f');
    assert("mkfs.fat failed"@[1] == 'k' && "mkfs.fat failed"@[2] == 'f');
    assert("mount root failed"@[1] == 'o' && "mount boot failed"@[1] == 'o');
    assert("mkdir boot failed"@[2] == 'd');
}

/// Law: where the disks cannot be listed, the user types one.
pub proof fn law_a_disk_is_typed_where_none_is_listed(m: InstallModel, stdout: Seq<u8>)
    requires
        m.stage == Stage::Disks,
    ensures
        ({
            let (n, turn) = advance(m, ReplyView::Failed);
            &&& n.stage == Stage::TypedDisk
            &&& turn.request == (RequestView::Input {
                prompt: "Target disk (e.g. /dev/sda)"@,
                default: "/dev/sda"@,
            })
            &&& advance(m, ReplyView::Output { success: false, stdout }) == (n, turn)
            &&& advance(n, ReplyView::Text(None)).0.disk == "/dev/sda"@
        }),
{
}

/// Law: a no to the warning ends the installation in peace, and a yes makes the disk ready
/// by the plan for the firmware, the disk and the file system.
pub proof fn law_what_the_answer_to_the_warning_means(m: InstallModel)
    requires
        m.stage == Stage::Confirmation,
    ensures
        ({
            let (n, turn) = advance(m, ReplyView::Confirmed(false));
            &&& n.stage == Stage::Ended
            &&& turn.request == RequestView::End(OutcomeView::Done)
            &&& turn.lines == seq![
                LineView {
                    stderr: false,
                    spans: seq![span(Style::RedBold, "Installation aborted."@)],
                },
            ]
        }),
        ({
            let (n, turn) = advance(m, ReplyView::Confirmed(true));
            let root = if m.uefi {
                5int
            } else {
                3
            };
            &&& n.stage == Stage::Partitioning
            &&& n.at == 0
            &&& turn.lines == seq![headed("── Partitioning ─────────────────────────"@)]
            &&& n.plan.len() == if m.uefi {
                9int
            } else {
                5
            }
            &&& n.plan[root] is Run && n.plan[root]->Run_command.program == "mkfs."@ + m.fs
        }),
{
    law_the_plan_with_uefi_firmware(m.disk, m.fs);
    law_the_plan_with_legacy_firmware(m.disk, m.fs);
}

/// Law: a plan is carried out step by step: after a command that succeeds, or after a pause,
/// the next step is asked for.
pub proof fn law_a_plan_goes_step_by_step(m: InstallModel, stderr: Seq<u8>, reply: ReplyView)
    requires
        m.running(),
        0 <= m.at,
        m.at + 1 < m.plan.len(),
    ensures
        ({
            let n = InstallModel { at: m.at + 1, ..m };
            let request = match m.plan[m.at + 1] {
                StepView::Run { message, command, failure } => RequestView::Run {
                    message,
                    command,
                },
                StepView::Settle { command, pause_ms } => RequestView::Settle {
                    message: seq![],
                    command,
                    pause_ms,
                },
            };
            let turn = TurnView { lines: seq![], request };
            &&& m.plan[m.at] is Run ==> advance(m, went_well(stderr)) == (n, turn)
            &&& m.plan[m.at] is Settle ==> advance(m, reply) == (n, turn)
        }),
{
}

/// Law: a command of a plan that fails ends the installation, with what it was for and why.
pub proof fn law_a_plan_ends_where_it_fails(m: InstallModel, stderr: Seq<u8>, why: Seq<char>)
    requires
        m.running(),
        0 <= m.at < m.plan.len(),
        m.plan[m.at] is Run,
    ensures
        ({
            let failure = m.plan[m.at]->Run_failure;
            let program = m.plan[m.at]->Run_command.program;
            &&& advance(m, ReplyView::Ran(RunView::Exited { success: false, stderr })).1
                == (TurnView {
                lines: seq![],
                request: RequestView::End(
                    OutcomeView::Failed(failure + ": "@ + trimmed(lossy(stderr))),
                ),
            })
            &&& advance(m, ReplyView::Ran(RunView::NotStarted(why))).1 == (TurnView {
                lines: seq![],
                request: RequestView::End(
                    OutcomeView::Failed(
                        failure + ": "@ + ("failed to run "@ + program + ": "@ + why),
                    ),
                ),
            })
        }),
{
}

/// Law: once the disk is ready the hardware is looked at, then the directories are created,
/// and then the questions are put from the first on.
pub proof fn law_from_the_disk_to_the_questions(
    m: InstallModel,
    stderr: Seq<u8>,
    more: Seq<u8>,
)
    requires
        m.stage == Stage::Partitioning,
        0 <= m.at,
        m.at + 1 == m.plan.len(),
        m.plan[m.at] is Run,
    ensures
        ({
            let (n1, t1) = advance(m, went_well(stderr));
            let (n2, t2) = advance(n1, went_well(more));
            let (n3, t3) = advance(n2, ReplyView::Done);
            let (n4, t4) = advance(n3, ReplyView::Done);
            &&& t1.lines == seq![
                ticked("Disks formatted and mounted."@),
                headed("── Hardware Config ──────────────────────"@),
            ]
            &&& asks_to_run(t1.request, "nixos-generate-config"@, seq!["--root"@, "/mnt"@])
            &&& t1.request->Run_message == seq![
                span(Style::Plain, "Generating hardware configuration..."@),
            ]
            &&& n1.plan.len() == 1 && n1.plan[0]->Run_failure == "nixos-generate-config failed"@
            &&& t2.lines == seq![
                ticked("Hardware configuration generated."@),
                headed("── Glacier Configuration ────────────────"@),
                pointed("Setting up your Glacier configuration..."@),
            ]
            &&& t2.request == RequestView::CreateDir("/mnt/glacier"@)
            &&& t3.request == RequestView::CreateDir("/mnt/glacier"@ + "/hosts"@)
            &&& n4.stage == Stage::Asking
            &&& n4.answers.len() == 0
            &&& t4.request == question_request(questions()[0])
        }),
{
}

/// Law: each answer is added behind those before it, and the next question is put; after the
/// last the flake is written, for all of them.
pub proof fn law_the_answers_are_gathered(m: InstallModel, reply: ReplyView, text: Seq<char>)
    requires
        m.stage == Stage::Asking,
        m.answers.len() < questions().len(),
        answer(questions()[m.answers.len() as int], reply) == Some(text),
    ensures
        ({
            let (n, turn) = advance(m, reply);
            let count = m.answers.len() + 1;
            &&& n.answers == m.answers.push(text)
            &&& turn.lines.len() == 0
            &&& count < questions().len() ==> n.stage == Stage::Asking && turn.request
                == question_request(questions()[count as int])
            &&& count == questions().len() ==> n.stage == Stage::WriteFlake && turn.request
                == (RequestView::WriteFile {
                path: "/mnt/glacier"@ + "/flake.nix"@,
                contents: filled(FLAKE_TEMPLATE@, flake_slots(answers_of(n.answers))),
            })
        }),
{
}

/// Law: behind the flake the two configurations are written, each into its file, and then the
/// hardware configuration is looked for.
pub proof fn law_the_files_are_written_in_turn(m: InstallModel)
    requires
        m.stage == Stage::WriteFlake,
    ensures
        ({
            let a = answers_of(m.answers);
            let (n1, t1) = advance(m, ReplyView::Done);
            let (n2, t2) = advance(n1, ReplyView::Done);
            let (n3, t3) = advance(n2, ReplyView::Done);
            &&& t1.request == (RequestView::WriteFile {
                path: "/mnt/glacier"@ + "/configuration.nix"@,
                contents: filled(CONFIGURATION_TEMPLATE@, configuration_slots(a)),
            })
            &&& t2.request == (RequestView::WriteFile {
                path: "/mnt/glacier"@ + "/home.nix"@,
                contents: filled(HOME_TEMPLATE@, home_slots(a)),
            })
            &&& t3.lines == seq![ticked("Glacier config written."@)]
            &&& t3.request == RequestView::Exists("/mnt/etc/nixos/hardware-configuration.nix"@)
            &&& n3.stage == Stage::HardwareExists
        }),
{
}

/// Law: a hardware configuration that is there is copied to the file of the new system and
/// removed, whether or not that works; one that is not is complained of. Either way the file
/// of the new system is looked for.
pub proof fn law_the_hardware_configuration_is_moved(m: InstallModel, removed: ReplyView)
    requires
        m.stage == Stage::HardwareExists,
    ensures
        ({
            let host = answers_of(m.answers).system_name;
            let file = "/mnt/glacier"@ + "/hosts/"@ + host + ".nix"@;
            let hardware = "/mnt/etc/nixos/hardware-configuration.nix"@;
            let (n1, t1) = advance(m, ReplyView::Exists(true));
            let (n2, t2) = advance(n1, ReplyView::Done);
            let (n3, t3) = advance(n2, removed);
            let (none, complaint) = advance(m, ReplyView::Exists(false));
            &&& t1.request == (RequestView::Copy { from: hardware, to: file })
            &&& t2.request == RequestView::Remove(hardware)
            &&& t3.lines == seq![
                LineView {
                    stderr: false,
                    spans: seq![
                        span(Style::Plain, "  "@),
                        span(Style::Green, "✔"@),
                        span(Style::Plain, " "@),
                        span(Style::Dimmed, "Hardware config moved to"@),
                        span(Style::Plain, " "@),
                        span(Style::Cyan, "hosts/"@ + host + ".nix"@),
                    ],
                },
            ]
            &&& t3.request == RequestView::Exists(file)
            &&& n3.stage == Stage::HostExists
            &&& none.stage == Stage::HostExists
            &&& complaint.request == RequestView::Exists(file)
            &&& complaint.lines == seq![
                LineView {
                    stderr: true,
                    spans: seq![
                        span(Style::Plain, "  "@),
                        span(Style::Yellow, "⚠"@),
                        span(Style::Plain, " "@),
                        span(Style::Yellow, "hardware-configuration.nix not found at"@),
                        span(Style::Plain, " "@),
                        span(Style::Yellow, hardware),
                    ],
                },
            ]
        }),
{
}

/// Law: where the file of the new system is there, it is read and written back with the boot
/// loader for the firmware; then, and where it is not there at once, the system is installed.
pub proof fn law_the_boot_loader_is_added_and_the_system_installed(
    m: InstallModel,
    contents: Seq<char>,
)
    requires
        m.stage == Stage::HostExists,
    ensures
        ({
            let host = answers_of(m.answers).system_name;
            let file = "/mnt/glacier"@ + "/hosts/"@ + host + ".nix"@;
            let (n1, t1) = advance(m, ReplyView::Exists(true));
            let (n2, t2) = advance(n1, ReplyView::Contents(contents));
            let (n3, t3) = advance(n2, ReplyView::Done);
            let (none, at_once) = advance(m, ReplyView::Exists(false));
            let install = RequestView::Install { target: ".#"@ + host, dir: "/mnt/glacier"@ };
            let head = headed("── Installing ───────────────────────────"@);
            &&& t1.request == RequestView::ReadFile(file)
            &&& t2.request == (RequestView::WriteFile {
                path: file,
                contents: with_boot_block(contents, m.uefi),
            })
            &&& t3.request == install
            &&& t3.lines == seq![ticked("Boot loader config appended."@), head]
            &&& n3.stage == Stage::Installing
            &&& at_once.request == install
            &&& at_once.lines == seq![head]
            &&& none.stage == Stage::Installing
        }),
{
    let head = headed("── Installing ───────────────────────────"@);
    assert(seq![ticked("Boot loader config appended."@)].push(head) =~= seq![
        ticked("Boot loader config appended."@),
        head,
    ]);
    assert(Seq::<LineView>::empty().push(head) =~= seq![head]);
}

/// Law: an installation that failed exits with a complaint; after one that succeeded the user
/// says what comes next, and gets it.
pub proof fn law_what_comes_after_the_installation(m: InstallModel, last: ReplyView)
    requires
        m.stage == Stage::Installing,
    ensures
        ({
            let (n, turn) = advance(m, ReplyView::Installed(false));
            &&& n.stage == Stage::Ended
            &&& turn.request == RequestView::End(OutcomeView::Exit)
            &&& turn.lines == seq![
                LineView {
                    stderr: true,
                    spans: seq![
                        span(Style::Plain, "\n"@),
                        span(
                            Style::RedBold,
                            "❌ Installation failed. Check the output above for errors."@,
                        ),
                    ],
                },
            ]
        }),
        ({
            let host = answers_of(m.answers).system_name;
            let (n, turn) = advance(m, ReplyView::Installed(true));
            let reboot = advance(n, choose_option(0));
            let shell = advance(n, choose_option(1));
            let shutdown = advance(n, choose_option(2));
            &&& turn.lines == seq![
                LineView {
                    stderr: false,
                    spans: seq![
                        span(Style::Plain, "\n✨ "@),
                        span(Style::BrightWhiteBold, "NixOS installed successfully!"@),
                        span(Style::Plain, " "@),
                        span(Style::Dimmed, "("@ + host + ")"@),
                    ],
                },
                LineView { stderr: false, spans: seq![] },
            ]
            &&& turn.request == (RequestView::Select {
                prompt: "What would you like to do now?"@,
                options: seq!["Reboot"@, "Drop to shell"@, "Shutdown"@],
            })
            &&& advance(n, ReplyView::Choice(None)) == reboot
            &&& asks_to_launch(reboot.1.request, "reboot"@, seq![])
            &&& reboot.1.lines == seq![
                LineView { stderr: false, spans: seq![span(Style::Dimmed, "Rebooting..."@)] },
            ]
            &&& asks_to_launch(shell.1.request, "/bin/sh"@, seq![])
            &&& shell.1.lines == seq![pointed("Dropping to shell. Type `exit` when done."@)]
            &&& asks_to_launch(shutdown.1.request, "shutdown"@, seq!["-h"@, "now"@])
            &&& shutdown.1.lines == seq![
                LineView { stderr: false, spans: seq![span(Style::Dimmed, "Shutting down..."@)] },
            ]
            &&& advance(reboot.0, last).1.request == RequestView::End(OutcomeView::Done)
            &&& advance(shell.0, last).1.request == RequestView::End(OutcomeView::Done)
            &&& advance(shutdown.0, last).1.request == RequestView::End(OutcomeView::Done)
        }),
{
    reveal_strlit("Reboot");
    reveal_strlit("Drop to shell");
    reveal_strlit("Shutdown");
    assert("Reboot"@[0] == 'R' && "Drop to shell"@[0] == 'D' && "Shutdown"@[0] == 'S');
}

/// Law: a configuration is set up where none of the three files is there: they are looked
/// for one after the other, and one that is there is complained of and ends it.
pub proof fn law_the_three_files_are_looked_for(m: init::InitModel)
    ensures
        init::opening().1 == (TurnView {
            lines: seq![],
            request: RequestView::Exists("flake.nix"@),
        }),
        ({
            let (n1, t1) = init::advance(init::opening().0, ReplyView::Exists(false));
            let (n2, t2) = init::advance(n1, ReplyView::Exists(false));
            let (n3, t3) = init::advance(n2, ReplyView::Exists(false));
            &&& t1.request == RequestView::Exists("configuration.nix"@)
            &&& t2.request == RequestView::Exists("home.nix"@)
            &&& n3.stage == init::Stage::Asking
            &&& n3.answers.len() == 0
            &&& t3.request == question_request(questions()[0])
            &&& t3.lines == seq![
                LineView {
                    stderr: false,
                    spans: seq![
                        span(Style::Plain, "🏔️  "@),
                        span(Style::BrightWhiteBold, "Setting up your Glacier configuration"@),
                        span(Style::Plain, "\n"@),
                    ],
                },
            ]
        }),
        m.stage == init::Stage::FlakeExists ==> stands_in_the_way(m, "flake.nix"@),
        m.stage == init::Stage::ConfigurationExists ==> stands_in_the_way(m, "configuration.nix"@),
        m.stage == init::Stage::HomeExists ==> stands_in_the_way(m, "home.nix"@),
{
}

/// Whether a file that is there is complained of and ends the setting up.
pub open spec fn stands_in_the_way(m: init::InitModel, file: Seq<char>) -> bool {
    let (n, turn) = init::advance(m, ReplyView::Exists(true));
    &&& n.stage == init::Stage::Ended
    &&& turn.request == RequestView::End(OutcomeView::Exit)
    &&& turn.lines == seq![
        LineView {
            stderr: true,
            spans: seq![span(Style::RedBold, file + " already exists in this directory."@)],
        },
    ]
}

/// Law: each answer is added behind those before it, and the next question is put; after the
/// last the flake is written, for all of them.
pub proof fn law_the_answers_for_a_configuration(
    m: init::InitModel,
    reply: ReplyView,
    text: Seq<char>,
)
    requires
        m.stage == init::Stage::Asking,
        m.answers.len() < questions().len(),
        answer(questions()[m.answers.len() as int], reply) == Some(text),
    ensures
        ({
            let (n, turn) = init::advance(m, reply);
            let count = m.answers.len() + 1;
            &&& n.answers == m.answers.push(text)
            &&& turn.lines.len() == 0
            &&& count < questions().len() ==> n.stage == init::Stage::Asking && turn.request
                == question_request(questions()[count as int])
            &&& count == questions().len() ==> n.stage == init::Stage::WriteFlake && turn.request
                == (RequestView::WriteFile {
                path: "flake.nix"@,
                contents: filled(FLAKE_TEMPLATE@, flake_slots(answers_of(n.answers))),
            })
        }),
{
}

/// Law: the three files are written in turn, each with its own contents, and then the user is
/// told how to go on. A file that cannot be written ends the setting up.
pub proof fn law_the_files_of_a_configuration(m: init::InitModel)
    requires
        m.stage == init::Stage::WriteFlake,
    ensures
        ({
            let a = answers_of(m.answers);
            let (n1, t1) = init::advance(m, ReplyView::Done);
            let (n2, t2) = init::advance(n1, ReplyView::Done);
            let (n3, t3) = init::advance(n2, ReplyView::Done);
            let broken = RequestView::End(OutcomeView::Broken);
            &&& t1.request == (RequestView::WriteFile {
                path: "configuration.nix"@,
                contents: filled(CONFIGURATION_TEMPLATE@, configuration_slots(a)),
            })
            &&& t2.request == (RequestView::WriteFile {
                path: "home.nix"@,
                contents: filled(HOME_TEMPLATE@, home_slots(a)),
            })
            &&& t3.request == RequestView::End(OutcomeView::Done)
            &&& n3.stage == init::Stage::Ended
            &&& t3.lines == seq![
                LineView {
                    stderr: false,
                    spans: seq![
                        span(Style::Plain, "\n✨ "@),
                        span(Style::BrightWhiteBold, "Successfully created a Glacier flake."@),
                    ],
                },
                LineView {
                    stderr: false,
                    spans: seq![
                        span(Style::Plain, "   Use "@),
                        span(Style::CyanBold, "sudo glacierctl switch "@ + a.system_name),
                        span(Style::Plain, " to switch to your new config."@),
                    ],
                },
            ]
            &&& init::advance(m, ReplyView::Failed).1.request == broken
            &&& init::advance(n1, ReplyView::Failed).1.request == broken
            &&& init::advance(n2, ReplyView::Failed).1.request == broken
        }),
{
}

} // verus!
