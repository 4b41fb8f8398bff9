//! How the target disk is partitioned, formatted and mounted.

use vstd::prelude::*;

use crate::plan::{
    note, note_about, note_about_text, note_text, run, run_step, PlanStep, StepView,
};
use crate::style::{span, SpanView, Style};
use crate::system::{cmd, command, derive_partitions, law_partitions_differ, partition_of};
use crate::text::{law_found_where_it_stands, occurs_at};

verus! {

/// Let the system read the new partition table.
pub open spec fn probe(disk: Seq<char>) -> StepView {
    StepView::Settle { command: cmd("partprobe"@, seq![disk]), pause_ms: 500 }
}

/// Remove every partition of the disk.
pub open spec fn zap(table: Seq<char>, disk: Seq<char>) -> StepView {
    run(
        note_about("Writing "@ + table + " partition table on "@, disk, "..."@),
        "sgdisk"@,
        seq!["--zap-all"@, disk],
        "sgdisk zap failed"@,
    )
}

/// Create the partition that holds the system.
pub open spec fn create_root(
    fs: Seq<char>,
    range: Seq<char>,
    kind: Seq<char>,
    name: Seq<char>,
    disk: Seq<char>,
) -> StepView {
    run(
        note_about("Creating Linux root partition ("@, fs, ")..."@),
        "sgdisk"@,
        seq!["-n"@, range, "-t"@, kind, "-c"@, name, disk],
        "sgdisk root partition failed"@,
    )
}

/// Format the partition that holds the system.
pub open spec fn format_root(fs: Seq<char>, partition: Seq<char>) -> StepView {
    run(
        note_about("Formatting root partition as "@, fs, "..."@),
        "mkfs."@ + fs,
        seq!["-L"@, "nixos"@, partition],
        "mkfs failed"@,
    )
}

/// Mount the partition that holds the system.
pub open spec fn mount_root() -> StepView {
    run(
        note("Mounting root partition at /mnt..."@),
        "mount"@,
        seq!["-L"@, "nixos"@, "/mnt"@],
        "mount root failed"@,
    )
}

/// The steps on a machine with UEFI firmware: a boot partition and the system in
/// the second one.
pub open spec fn uefi_steps(disk: Seq<char>, fs: Seq<char>) -> Seq<StepView> {
    seq![
        zap("GPT"@, disk),
        run(
            note("Creating EFI System Partition (512 MiB)..."@),
            "sgdisk"@,
            seq!["-n"@, "1:0:+512M"@, "-t"@, "1:EF00"@, "-c"@, "1:EFI System"@, disk],
            "sgdisk EFI partition failed"@,
        ),
        create_root(fs, "2:0:0"@, "2:8304"@, "2:Linux Root (x86-64)"@, disk),
        probe(disk),
        run(
            note("Formatting EFI partition as FAT32..."@),
            "mkfs.fat"@,
            seq!["-F"@, "32"@, "-n"@, "BOOT"@, partition_of(disk, "1"@)],
            "mkfs.fat failed"@,
        ),
        format_root(fs, partition_of(disk, "2"@)),
        mount_root(),
        run(
            note("Creating /mnt/boot..."@),
            "mkdir"@,
            seq!["-p"@, "/mnt/boot"@],
            "mkdir boot failed"@,
        ),
        run(
            note("Mounting EFI partition at /mnt/boot..."@),
            "mount"@,
            seq!["-L"@, "BOOT"@, "/mnt/boot"@],
            "mount boot failed"@,
        ),
    ]
}

/// The steps on a machine with legacy firmware: the system in the first and only
/// partition.
pub open spec fn bios_steps(disk: Seq<char>, fs: Seq<char>) -> Seq<StepView> {
    seq![
        zap("MBR"@, disk),
        create_root(fs, "1:0:0"@, "1:8300"@, "1:Linux Root"@, disk),
        probe(disk),
        format_root(fs, partition_of(disk, "1"@)),
        mount_root(),
    ]
}

/// The steps that make `disk` ready, with the system on a file system of type
/// `fs`.
pub open spec fn partition_steps(uefi: bool, disk: Seq<char>, fs: Seq<char>) -> Seq<StepView> {
    if uefi {
        uefi_steps(disk, fs)
    } else {
        bios_steps(disk, fs)
    }
}

fn probe_step(disk: &str) -> (r: PlanStep)
    ensures
        r.deep_view() == probe(disk@),
{
    let args = vec![disk];
    assert(args.deep_view() =~= seq![disk@]);
    PlanStep::Settle { command: command("partprobe", args), pause_ms: 500 }
}

fn zap_step(table: &str, disk: &str) -> (r: PlanStep)
    ensures
        r.deep_view() == zap(table@, disk@),
{
    let mut before = "Writing ".to_string();
    before.append(table);
    before.append(" partition table on ");
    let args = vec!["--zap-all", disk];
    assert(args.deep_view() =~= seq!["--zap-all"@, disk@]);
    run_step(
        note_about_text(before.as_str(), disk, "..."),
        "sgdisk",
        args,
        "sgdisk zap failed",
    )
}

fn create_root_step(fs: &str, range: &str, kind: &str, name: &str, disk: &str) -> (r: PlanStep)
    ensures
        r.deep_view() == create_root(fs@, range@, kind@, name@, disk@),
{
    let args = vec!["-n", range, "-t", kind, "-c", name, disk];
    assert(args.deep_view() =~= seq!["-n"@, range@, "-t"@, kind@, "-c"@, name@, disk@]);
    run_step(
        note_about_text("Creating Linux root partition (", fs, ")..."),
        "sgdisk",
        args,
        "sgdisk root partition failed",
    )
}

fn format_root_step(fs: &str, partition: &str) -> (r: PlanStep)
    ensures
        r.deep_view() == format_root(fs@, partition@),
{
    let mut program = "mkfs.".to_string();
    program.append(fs);
    let args = vec!["-L", "nixos", partition];
    assert(args.deep_view() =~= seq!["-L"@, "nixos"@, partition@]);
    run_step(
        note_about_text("Formatting root partition as ", fs, "..."),
        program.as_str(),
        args,
        "mkfs failed",
    )
}

fn mount_root_step() -> (r: PlanStep)
    ensures
        r.deep_view() == mount_root(),
{
    let args = vec!["-L", "nixos", "/mnt"];
    assert(args.deep_view() =~= seq!["-L"@, "nixos"@, "/mnt"@]);
    run_step(note_text("Mounting root partition at /mnt..."), "mount", args, "mount root failed")
}

/// The steps that make `disk` ready, with the system on a file system of type
/// `fs`.
pub fn partition_plan(uefi: bool, disk: &str, fs: &str) -> (r: Vec<PlanStep>)
    ensures
        r.deep_view() == partition_steps(uefi, disk@, fs@),
{
    let (first, second) = derive_partitions(disk);
    if uefi {
        let create = vec!["-n", "1:0:+512M", "-t", "1:EF00", "-c", "1:EFI System", disk];
        let format = vec!["-F", "32", "-n", "BOOT", first.as_str()];
        let mkdir = vec!["-p", "/mnt/boot"];
        let mount = vec!["-L", "BOOT", "/mnt/boot"];
        proof {
            assert(create.deep_view() =~= seq![
                "-n"@,
                "1:0:+512M"@,
                "-t"@,
                "1:EF00"@,
                "-c"@,
                "1:EFI System"@,
                disk@,
            ]);
            assert(format.deep_view() =~= seq!["-F"@, "32"@, "-n"@, "BOOT"@, first@]);
            assert(mkdir.deep_view() =~= seq!["-p"@, "/mnt/boot"@]);
            assert(mount.deep_view() =~= seq!["-L"@, "BOOT"@, "/mnt/boot"@]);
        }
        let r = vec![
            zap_step("GPT", disk),
            run_step(
                note_text("Creating EFI System Partition (512 MiB)..."),
                "sgdisk",
                create,
                "sgdisk EFI partition failed",
            ),
            create_root_step(fs, "2:0:0", "2:8304", "2:Linux Root (x86-64)", disk),
            probe_step(disk),
            run_step(
                note_text("Formatting EFI partition as FAT32..."),
                "mkfs.fat",
                format,
                "mkfs.fat failed",
            ),
            format_root_step(fs, second.as_str()),
            mount_root_step(),
            run_step(note_text("Creating /mnt/boot..."), "mkdir", mkdir, "mkdir boot failed"),
            run_step(
                note_text("Mounting EFI partition at /mnt/boot..."),
                "mount",
                mount,
                "mount boot failed",
            ),
        ];
        assert(r.deep_view() =~= uefi_steps(disk@, fs@));
        r
    } else {
        let r = vec![
            zap_step("MBR", disk),
            create_root_step(fs, "1:0:0", "1:8300", "1:Linux Root", disk),
            probe_step(disk),
            format_root_step(fs, first.as_str()),
            mount_root_step(),
        ];
        assert(r.deep_view() =~= bios_steps(disk@, fs@));
        r
    }
}

/// Whether a step runs this command, and fails with this error.
pub open spec fn runs(
    step: StepView,
    program: Seq<char>,
    args: Seq<Seq<char>>,
    failure: Seq<char>,
) -> bool {
    match step {
        StepView::Run { message, command, failure: why } => {
            &&& command.program == program
            &&& command.args == args
            &&& why == failure
        },
        _ => false,
    }
}

/// The text of a row of spans.
pub open spec fn text_of(spans: Seq<SpanView>) -> Seq<char>
    decreases spans.len(),
{
    if spans.len() == 0 {
        seq![]
    } else {
        text_of(spans.drop_last()) + spans.last().text
    }
}

/// Whether a step runs its command under a message of this text.
pub open spec fn says(step: StepView, text: Seq<char>) -> bool {
    match step {
        StepView::Run { message, command, failure } => text_of(message) == text,
        _ => false,
    }
}

/// The text of one span, and of three.
proof fn lemma_text_of(a: SpanView, b: SpanView, c: SpanView)
    ensures
        text_of(seq![a]) == a.text,
        text_of(seq![a, b, c]) == a.text + b.text + c.text,
{
    let one = seq![a];
    let two = seq![a, b];
    let three = seq![a, b, c];
    assert(one.drop_last() =~= seq![]);
    assert(two.drop_last() =~= one);
    assert(three.drop_last() =~= two);
    reveal_with_fuel(text_of, 4);
    assert(text_of(one) =~= a.text);
    assert(text_of(three) =~= a.text + b.text + c.text);
}

/// Whether a step makes a file system on this partition.
pub open spec fn formats(step: StepView, partition: Seq<char>) -> bool {
    match step {
        StepView::Run { message, command, failure } => occurs_at(command.program, "mkfs."@, 0)
            && command.args.len() > 0 && command.args.last() == partition,
        _ => false,
    }
}

/// Law: the plan holds one command that formats the partition of the system, which is
/// the second with UEFI firmware and the first without, and it makes the file system that
/// was chosen.
pub proof fn law_the_root_is_formatted_as_chosen(uefi: bool, disk: Seq<char>, fs: Seq<char>)
    ensures
        ({
            let s = partition_steps(uefi, disk, fs);
            let root = partition_of(
                disk,
                if uefi {
                    "2"@
                } else {
                    "1"@
                },
            );
            exists|k: int|
                #![trigger s[k]]
                0 <= k < s.len() && formats(s[k], root) && s[k]->Run_command.program == "mkfs."@
                    + fs && forall|j: int|
                    0 <= j < s.len() && j != k ==> !formats(#[trigger] s[j], root)
        }),
{
    let s = partition_steps(uefi, disk, fs);
    law_partitions_differ(disk);
    law_found_where_it_stands(seq![], "mkfs."@, fs);
    assert(seq![] + "mkfs."@ + fs =~= "mkfs."@ + fs);
    assert(occurs_at("mkfs."@ + fs, "mkfs."@, 0));
    reveal_strlit("mkfs.");
    reveal_strlit("sgdisk");
    reveal_strlit("mount");
    reveal_strlit("mkdir");
    lemma_no_format("sgdisk"@, 0);
    lemma_no_format("mount"@, 1);
    lemma_no_format("mkdir"@, 2);
    let k: int = if uefi {
        5
    } else {
        3
    };
    assert(formats(s[k], partition_of(disk, if uefi { "2"@ } else { "1"@ })));
}

/// A program that differs from those that make file systems is none of them.
proof fn lemma_no_format(program: Seq<char>, i: int)
    requires
        0 <= i < 5,
        "mkfs."@.len() == 5,
        i < program.len() ==> program[i] != "mkfs."@[i],
    ensures
        !occurs_at(program, "mkfs."@, 0),
{
    if occurs_at(program, "mkfs."@, 0) {
        assert(program.subrange(0, 5)[i] == program[i]);
    }
}

/// Law: what is run, and what is said of it, to make a disk ready on a machine with
/// UEFI firmware.
pub proof fn law_the_plan_with_uefi_firmware(disk: Seq<char>, fs: Seq<char>)
    ensures
        ({
            let s = partition_steps(true, disk, fs);
            &&& s.len() == 9
            &&& runs(s[0], "sgdisk"@, seq!["--zap-all"@, disk], "sgdisk zap failed"@)
            &&& says(s[0], "Writing GPT partition table on "@ + disk + "..."@)
            &&& runs(s[1], "sgdisk"@, seq!["-n"@, "1:0:+512M"@, "-t"@, "1:EF00"@, "-c"@, "1:EFI System"@, disk], "sgdisk EFI partition failed"@)
            &&& says(s[1], "Creating EFI System Partition (512 MiB)..."@)
            &&& runs(s[2], "sgdisk"@, seq!["-n"@, "2:0:0"@, "-t"@, "2:8304"@, "-c"@, "2:Linux Root (x86-64)"@, disk], "sgdisk root partition failed"@)
            &&& says(s[2], "Creating Linux root partition ("@ + fs + ")..."@)
            &&& s[3] is Settle && s[3]->Settle_command.program == "partprobe"@ && s[3]->Settle_command.args == seq![
                disk,
            ] && s[3]->Settle_pause_ms == 500
            &&& runs(s[4], "mkfs.fat"@, seq!["-F"@, "32"@, "-n"@, "BOOT"@, partition_of(disk, "1"@)], "mkfs.fat failed"@)
            &&& says(s[4], "Formatting EFI partition as FAT32..."@)
            &&& runs(s[5], "mkfs."@ + fs, seq!["-L"@, "nixos"@, partition_of(disk, "2"@)], "mkfs failed"@)
            &&& says(s[5], "Formatting root partition as "@ + fs + "..."@)
            &&& runs(s[6], "mount"@, seq!["-L"@, "nixos"@, "/mnt"@], "mount root failed"@)
            &&& says(s[6], "Mounting root partition at /mnt..."@)
            &&& runs(s[7], "mkdir"@, seq!["-p"@, "/mnt/boot"@], "mkdir boot failed"@)
            &&& says(s[7], "Creating /mnt/boot..."@)
            &&& runs(s[8], "mount"@, seq!["-L"@, "BOOT"@, "/mnt/boot"@], "mount boot failed"@)
            &&& says(s[8], "Mounting EFI partition at /mnt/boot..."@)
        }),
{
    let plain = |text: Seq<char>| span(Style::Plain, text);
    lemma_text_of(
        plain("Writing GPT partition table on "@),
        span(Style::Cyan, disk),
        plain("..."@),
    );
    lemma_text_of(
        plain("Creating Linux root partition ("@),
        span(Style::Cyan, fs),
        plain(")..."@),
    );
    lemma_text_of(
        plain("Formatting root partition as "@),
        span(Style::Cyan, fs),
        plain("..."@),
    );
    let none = plain(""@);
    lemma_text_of(plain("Creating EFI System Partition (512 MiB)..."@), none, none);
    lemma_text_of(plain("Formatting EFI partition as FAT32..."@), none, none);
    lemma_text_of(plain("Mounting root partition at /mnt..."@), none, none);
    lemma_text_of(plain("Creating /mnt/boot..."@), none, none);
    lemma_text_of(plain("Mounting EFI partition at /mnt/boot..."@), none, none);
    reveal_strlit("Writing ");
    reveal_strlit("GPT");
    reveal_strlit(" partition table on ");
    reveal_strlit("Writing GPT partition table on ");
    assert("Writing "@ + "GPT"@ + " partition table on "@ =~= "Writing GPT partition table on "@);
}

/// Law: what is run, and what is said of it, to make a disk ready on a machine with
/// legacy firmware.
pub proof fn law_the_plan_with_legacy_firmware(disk: Seq<char>, fs: Seq<char>)
    ensures
        ({
            let s = partition_steps(false, disk, fs);
            &&& s.len() == 5
            &&& runs(s[0], "sgdisk"@, seq!["--zap-all"@, disk], "sgdisk zap failed"@)
            &&& says(s[0], "Writing MBR partition table on "@ + disk + "..."@)
            &&& runs(s[1], "sgdisk"@, seq!["-n"@, "1:0:0"@, "-t"@, "1:8300"@, "-c"@, "1:Linux Root"@, disk], "sgdisk root partition failed"@)
            &&& says(s[1], "Creating Linux root partition ("@ + fs + ")..."@)
            &&& s[2] is Settle && s[2]->Settle_command.program == "partprobe"@ && s[2]->Settle_command.args == seq![
                disk,
            ] && s[2]->Settle_pause_ms == 500
            &&& runs(s[3], "mkfs."@ + fs, seq!["-L"@, "nixos"@, partition_of(disk, "1"@)], "mkfs failed"@)
            &&& says(s[3], "Formatting root partition as "@ + fs + "..."@)
            &&& runs(s[4], "mount"@, seq!["-L"@, "nixos"@, "/mnt"@], "mount root failed"@)
            &&& says(s[4], "Mounting root partition at /mnt..."@)
        }),
{
    let plain = |text: Seq<char>| span(Style::Plain, text);
    lemma_text_of(
        plain("Writing MBR partition table on "@),
        span(Style::Cyan, disk),
        plain("..."@),
    );
    lemma_text_of(
        plain("Creating Linux root partition ("@),
        span(Style::Cyan, fs),
        plain(")..."@),
    );
    lemma_text_of(
        plain("Formatting root partition as "@),
        span(Style::Cyan, fs),
        plain("..."@),
    );
    let none = plain(""@);
    lemma_text_of(plain("Creating EFI System Partition (512 MiB)..."@), none, none);
    lemma_text_of(plain("Formatting EFI partition as FAT32..."@), none, none);
    lemma_text_of(plain("Mounting root partition at /mnt..."@), none, none);
    lemma_text_of(plain("Creating /mnt/boot..."@), none, none);
    lemma_text_of(plain("Mounting EFI partition at /mnt/boot..."@), none, none);
    reveal_strlit("Writing ");
    reveal_strlit("MBR");
    reveal_strlit(" partition table on ");
    reveal_strlit("Writing MBR partition table on ");
    assert("Writing "@ + "MBR"@ + " partition table on "@ =~= "Writing MBR partition table on "@);
}


} // verus!
