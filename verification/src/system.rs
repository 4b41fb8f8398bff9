//! Commands of the system: what is run, and what is read from what it prints.

use vstd::prelude::*;

use crate::text::{
    chars_of, contains, copy_list, digit, find, first_at, holds, law_found_where_it_stands,
    law_trimming_takes_white_space, lemma_first_at, lines, lines_of,
    lossy, lossy_text, owned, same, slice_of, trim, trimmed, utf8_is_read,
    white,
};

verus! {

/// A program and its arguments.
#[derive(Debug)]
pub struct Command {
    pub program: String,
    pub args: Vec<String>,
}

/// The value of a `Command`.
#[verifier::ext_equal]
pub struct CommandView {
    pub program: Seq<char>,
    pub args: Seq<Seq<char>>,
}

impl DeepView for Command {
    type V = CommandView;

    open spec fn deep_view(&self) -> CommandView {
        CommandView { program: self.program@, args: self.args.deep_view() }
    }
}

/// The command that runs `program` with `args`.
pub open spec fn cmd(program: Seq<char>, args: Seq<Seq<char>>) -> CommandView {
    CommandView { program, args }
}

/// The command that runs `program` with `args`.
pub fn command(program: &str, args: Vec<&str>) -> (r: Command)
    ensures
        r.deep_view() == cmd(program@, args.deep_view()),
{
    Command { program: program.to_string(), args: owned(args) }
}

/// A copy of a command.
pub fn copy_command(command: &Command) -> (r: Command)
    ensures
        r.deep_view() == command.deep_view(),
{
    Command { program: command.program.clone(), args: copy_list(&command.args) }
}

/// How a command that was run with a spinner ended.
#[derive(Debug)]
pub enum RunResult {
    /// It could not be started, for this reason.
    NotStarted(String),
    /// It ran to its end and wrote this to its standard error.
    Exited { success: bool, stderr: Vec<u8> },
}

/// The value of a `RunResult`.
pub enum RunView {
    NotStarted(Seq<char>),
    Exited { success: bool, stderr: Seq<u8> },
}

impl DeepView for RunResult {
    type V = RunView;

    open spec fn deep_view(&self) -> RunView {
        match self {
            RunResult::NotStarted(why) => RunView::NotStarted(why@),
            RunResult::Exited { success, stderr } => RunView::Exited {
                success: *success,
                stderr: stderr@,
            },
        }
    }
}

/// The reason why a run of `program` counts as failed; `None` where it
/// succeeded.
pub open spec fn run_error(program: Seq<char>, result: RunView) -> Option<Seq<char>> {
    match result {
        RunView::NotStarted(why) => Some("failed to run "@ + program + ": "@ + why),
        RunView::Exited { success, stderr } => if success {
            None
        } else {
            Some(trimmed(lossy(stderr)))
        },
    }
}

/// Whether a run of `program` succeeded, and if not, why.
pub fn run_outcome(program: &str, result: &RunResult) -> (r: Result<(), String>)
    ensures
        match r {
            Ok(_) => run_error(program@, result.deep_view()) is None,
            Err(why) => run_error(program@, result.deep_view()) == Some(why@),
        },
        match result {
            RunResult::Exited { success: false, stderr } => utf8_is_read(stderr@),
            _ => true,
        },
{
    match result {
        RunResult::NotStarted(why) => {
            let mut s = "failed to run ".to_string();
            s.append(program);
            s.append(": ");
            s.append(why.as_str());
            Err(s)
        },
        RunResult::Exited { success, stderr } => {
            if *success {
                Ok(())
            } else {
                Err(trim(lossy_text(stderr.as_slice()).as_str()))
            }
        },
    }
}

/// The part of `s` before the first `c`: all of it where there is none.
pub open spec fn first_field(s: Seq<char>, c: char) -> Seq<char> {
    s.take(first_at(s, c))
}

/// The part of `s` before the first `c`.
pub fn field(s: &str, c: char) -> (r: String)
    ensures
        r@ == first_field(s@, c),
{
    let v = chars_of(s);
    let n = find(&v, c, 0);
    assert(v@.skip(0) =~= s@);
    slice_of(s, 0, n)
}

/// A block device, and the label under which it is offered.
#[derive(Debug)]
pub struct Disk {
    pub label: String,
    pub device: String,
}

/// The value of a `Disk`.
#[verifier::ext_equal]
pub struct DiskView {
    pub label: Seq<char>,
    pub device: Seq<char>,
}

impl DeepView for Disk {
    type V = DiskView;

    open spec fn deep_view(&self) -> DiskView {
        DiskView { label: self.label@, device: self.device@ }
    }
}

/// The disks that the lines of `lsblk` list: one for each line that starts with
/// a name, in their order.
pub open spec fn disks_in(lines: Seq<Seq<char>>) -> Seq<DiskView>
    decreases lines.len(),
{
    if lines.len() == 0 {
        seq![]
    } else {
        let line = lines.last();
        let device = first_field(line, ' ');
        if device.len() == 0 {
            disks_in(lines.drop_last())
        } else {
            disks_in(lines.drop_last()).push(DiskView { label: trimmed(line), device })
        }
    }
}

/// The disks that a text of `lsblk` lists.
pub fn parse_disks(text: &str) -> (r: Vec<Disk>)
    ensures
        r.deep_view() == disks_in(lines_of(text@)),
{
    let all = lines(text);
    let mut r: Vec<Disk> = Vec::new();
    let mut i: usize = 0;
    assert(r.deep_view() =~= disks_in(all.deep_view().take(0)));
    while i < all.len()
        invariant
            i <= all.len(),
            r.deep_view() == disks_in(all.deep_view().take(i as int)),
        decreases all.len() - i,
    {
        let ghost before = r.deep_view();
        let line = all[i].as_str();
        let device = field(line, ' ');
        proof {
            let some = all.deep_view().take(i + 1);
            assert(some.drop_last() =~= all.deep_view().take(i as int));
            assert(some.last() == line@);
        }
        if !device.as_str().is_empty() {
            let disk = Disk { label: trim(line), device };
            r.push(disk);
            assert(r.deep_view() =~= before.push(disk.deep_view()));
        }
        i += 1;
    }
    assert(all.deep_view().take(i as int) =~= all.deep_view());
    r
}

/// The disks that the output of `lsblk` lists: none where it could not be run
/// or failed.
pub open spec fn disks_listed(output: Option<(bool, Seq<u8>)>) -> Seq<DiskView> {
    match output {
        Some((true, stdout)) => disks_in(lines_of(lossy(stdout))),
        _ => seq![],
    }
}

/// The disks that the output of `lsblk` lists. The output is given as whether
/// the command succeeded and what it printed, or as `None` where it could not
/// be run.
pub fn list_disks(output: Option<(bool, Vec<u8>)>) -> (r: Vec<Disk>)
    ensures
        r.deep_view() == disks_listed(
            match output {
                Some((success, stdout)) => Some((success, stdout@)),
                None => None,
            },
        ),
        match output {
            Some((true, stdout)) => utf8_is_read(stdout@),
            _ => true,
        },
{
    match output {
        Some((true, stdout)) => parse_disks(lossy_text(stdout.as_slice()).as_str()),
        _ => {
            let r: Vec<Disk> = Vec::new();
            assert(r.deep_view() =~= seq![]);
            r
        },
    }
}

/// The command that lists the block devices, loop devices left out.
pub open spec fn lsblk() -> CommandView {
    cmd("lsblk"@, seq!["-dpno"@, "NAME,SIZE,MODEL"@, "--exclude"@, "7"@])
}

/// The command that lists the block devices, loop devices left out.
pub fn lsblk_command() -> (r: Command)
    ensures
        r.deep_view() == lsblk(),
{
    let r = command("lsblk", vec!["-dpno", "NAME,SIZE,MODEL", "--exclude", "7"]);
    assert(r.deep_view() =~= lsblk());
    r
}

/// The ethernet interfaces that the lines of `nmcli` list: the name in each line
/// that gives the type, in their order.
pub open spec fn interfaces_in(lines: Seq<Seq<char>>) -> Seq<Seq<char>>
    decreases lines.len(),
{
    if lines.len() == 0 {
        seq![]
    } else if holds(lines.last(), ":ethernet"@) {
        interfaces_in(lines.drop_last()).push(first_field(lines.last(), ':'))
    } else {
        interfaces_in(lines.drop_last())
    }
}

/// The ethernet interfaces that a text of `nmcli` lists.
pub fn parse_interfaces(text: &str) -> (r: Vec<String>)
    ensures
        r.deep_view() == interfaces_in(lines_of(text@)),
{
    let all = lines(text);
    let mut r: Vec<String> = Vec::new();
    let mut i: usize = 0;
    assert(r.deep_view() =~= interfaces_in(all.deep_view().take(0)));
    while i < all.len()
        invariant
            i <= all.len(),
            r.deep_view() == interfaces_in(all.deep_view().take(i as int)),
        decreases all.len() - i,
    {
        let ghost before = r.deep_view();
        let line = all[i].as_str();
        proof {
            let some = all.deep_view().take(i + 1);
            assert(some.drop_last() =~= all.deep_view().take(i as int));
            assert(some.last() == line@);
        }
        if contains(line, ":ethernet") {
            let name = field(line, ':');
            r.push(name);
            assert(r.deep_view() =~= before.push(name@));
        }
        i += 1;
    }
    assert(all.deep_view().take(i as int) =~= all.deep_view());
    r
}

/// The ethernet interfaces that the output of `nmcli` lists.
pub fn list_interfaces(stdout: &Vec<u8>) -> (r: Vec<String>)
    ensures
        r.deep_view() == interfaces_in(lines_of(lossy(stdout@))),
        utf8_is_read(stdout@),
{
    parse_interfaces(lossy_text(stdout.as_slice()).as_str())
}

/// Whether a line of `nmcli` names a network.
pub open spec fn names_network(line: Seq<char>) -> bool {
    trimmed(line).len() > 0 && line != "--"@
}

/// The networks that the lines of `nmcli` list, each once, in the order in which
/// they first come.
pub open spec fn networks_in(lines: Seq<Seq<char>>) -> Seq<Seq<char>>
    decreases lines.len(),
{
    if lines.len() == 0 {
        seq![]
    } else {
        let before = networks_in(lines.drop_last());
        let line = lines.last();
        if names_network(line) && !before.contains(line) {
            before.push(line)
        } else {
            before
        }
    }
}

/// Whether `s` is one of the strings.
fn listed(all: &Vec<String>, s: &str) -> (r: bool)
    ensures
        r == all.deep_view().contains(s@),
{
    let mut i: usize = 0;
    while i < all.len()
        invariant
            i <= all.len(),
            forall|k: int| 0 <= k < i ==> all.deep_view()[k] != s@,
        decreases all.len() - i,
    {
        if same(all[i].as_str(), s) {
            assert(all.deep_view()[i as int] == s@);
            return true;
        }
        i += 1;
    }
    false
}

/// The networks that a text of `nmcli` lists.
pub fn parse_networks(text: &str) -> (r: Vec<String>)
    ensures
        r.deep_view() == networks_in(lines_of(text@)),
{
    let all = lines(text);
    let mut r: Vec<String> = Vec::new();
    let mut i: usize = 0;
    assert(r.deep_view() =~= networks_in(all.deep_view().take(0)));
    while i < all.len()
        invariant
            i <= all.len(),
            r.deep_view() == networks_in(all.deep_view().take(i as int)),
        decreases all.len() - i,
    {
        let ghost before = r.deep_view();
        let line = all[i].as_str();
        proof {
            let some = all.deep_view().take(i + 1);
            assert(some.drop_last() =~= all.deep_view().take(i as int));
            assert(some.last() == line@);
        }
        if !trim(line).as_str().is_empty() && !same(line, "--") && !listed(&r, line) {
            r.push(line.to_string());
            assert(r.deep_view() =~= before.push(line@));
        }
        i += 1;
    }
    assert(all.deep_view().take(i as int) =~= all.deep_view());
    r
}

/// The networks that the output of `nmcli` lists.
pub fn list_networks(stdout: &Vec<u8>) -> (r: Vec<String>)
    ensures
        r.deep_view() == networks_in(lines_of(lossy(stdout@))),
        utf8_is_read(stdout@),
{
    parse_networks(lossy_text(stdout.as_slice()).as_str())
}

/// Whether partitions of `disk` are named with a `p` before their number: where
/// its own name ends in a digit.
pub open spec fn needs_p(disk: Seq<char>) -> bool {
    disk.len() > 0 && digit(disk.last())
}

/// The path of the partition of `disk` with this number.
pub open spec fn partition_of(disk: Seq<char>, number: Seq<char>) -> Seq<char> {
    if needs_p(disk) {
        disk + "p"@ + number
    } else {
        disk + number
    }
}

/// The paths of the first and of the second partition of a disk: `/dev/sda1` and
/// `/dev/sda2` of `/dev/sda`, `/dev/nvme0n1p1` and `/dev/nvme0n1p2` of
/// `/dev/nvme0n1`.
pub fn derive_partitions(disk: &str) -> (r: (String, String))
    ensures
        r.0@ == partition_of(disk@, "1"@),
        r.1@ == partition_of(disk@, "2"@),
{
    let v = chars_of(disk);
    let mut first = disk.to_string();
    if v.len() > 0 && '0' <= v[v.len() - 1] && v[v.len() - 1] <= '9' {
        first.append("p");
    }
    let mut second = first.clone();
    first.append("1");
    second.append("2");
    (first, second)
}

/// Law: the networks that are offered are those that a line names, each once.
pub proof fn law_networks_are_offered_once(lines: Seq<Seq<char>>)
    ensures
        networks_in(lines).no_duplicates(),
        forall|name: Seq<char>| #[trigger]
            networks_in(lines).contains(name) <==> lines.contains(name) && names_network(name),
    decreases lines.len(),
{
    if lines.len() > 0 {
        let before = lines.drop_last();
        let line = lines.last();
        let all = networks_in(lines);
        let some = networks_in(before);
        law_networks_are_offered_once(before);
        assert forall|name: Seq<char>| #[trigger] all.contains(name) <==> lines.contains(name)
            && names_network(name) by {
            assert(some.contains(name) <==> before.contains(name) && names_network(name));
            assert(lines =~= before.push(line));
            if before.contains(name) {
                let k = choose|k: int| 0 <= k < before.len() && before[k] == name;
                assert(lines[k] == name);
            }
            if lines.contains(name) && name != line {
                let k = choose|k: int| 0 <= k < lines.len() && lines[k] == name;
                assert(before[k] == name);
            }
            assert(lines[lines.len() - 1] == line);
            if all != some {
                assert(all == some.push(line));
                assert(all[all.len() - 1] == line);
                if some.contains(name) {
                    let k = choose|k: int| 0 <= k < some.len() && some[k] == name;
                    assert(all[k] == name);
                }
                if all.contains(name) && name != line {
                    let k = choose|k: int| 0 <= k < all.len() && all[k] == name;
                    assert(some[k] == name);
                }
            }
        }
    }
}

/// Law: a disk that is offered has a device, whose path holds no space.
pub proof fn law_disks_have_a_device(lines: Seq<Seq<char>>, i: int)
    requires
        0 <= i < disks_in(lines).len(),
    ensures
        disks_in(lines)[i].device.len() > 0,
        !disks_in(lines)[i].device.contains(' '),
    decreases lines.len(),
{
    let before = disks_in(lines.drop_last());
    if i < before.len() {
        law_disks_have_a_device(lines.drop_last(), i);
    } else {
        lemma_first_at(lines.last(), ' ');
    }
}

/// Law: every line that starts with the path of a device offers that device.
pub proof fn law_every_device_is_offered(lines: Seq<Seq<char>>, k: int)
    requires
        0 <= k < lines.len(),
        first_field(lines[k], ' ').len() > 0,
    ensures
        disks_in(lines).contains(
            DiskView { label: trimmed(lines[k]), device: first_field(lines[k], ' ') },
        ),
    decreases lines.len(),
{
    let before = disks_in(lines.drop_last());
    let all = disks_in(lines);
    let disk = DiskView { label: trimmed(lines[k]), device: first_field(lines[k], ' ') };
    if k < lines.len() - 1 {
        law_every_device_is_offered(lines.drop_last(), k);
        let j = choose|j: int| 0 <= j < before.len() && before[j] == disk;
        assert(all[j] == disk);
    } else {
        assert(all[all.len() - 1] == disk);
    }
}

/// Law: the two partitions of a disk have two paths, which start with its own.
pub proof fn law_partitions_differ(disk: Seq<char>)
    ensures
        partition_of(disk, "1"@) != partition_of(disk, "2"@),
        partition_of(disk, "1"@).take(disk.len() as int) == disk,
        partition_of(disk, "2"@).take(disk.len() as int) == disk,
{
    reveal_strlit("1");
    reveal_strlit("2");
    reveal_strlit("p");
    assert(partition_of(disk, "1"@).last() == '1');
    assert(partition_of(disk, "2"@).last() == '2');
    assert(partition_of(disk, "1"@).take(disk.len() as int) =~= disk);
    assert(partition_of(disk, "2"@).take(disk.len() as int) =~= disk);
}

/// Law: what lines list is what the first of them list, and then what the others do.
pub proof fn law_lists_are_read_line_by_line(first: Seq<Seq<char>>, second: Seq<Seq<char>>)
    ensures
        disks_in(first + second) == disks_in(first) + disks_in(second),
        interfaces_in(first + second) == interfaces_in(first) + interfaces_in(second),
    decreases second.len(),
{
    let all = first + second;
    if second.len() == 0 {
        assert(all =~= first);
    } else {
        assert(all.drop_last() =~= first + second.drop_last());
        assert(all.last() == second.last());
        law_lists_are_read_line_by_line(first, second.drop_last());
    }
    assert(disks_in(all) =~= disks_in(first) + disks_in(second));
    assert(interfaces_in(all) =~= interfaces_in(first) + interfaces_in(second));
}

/// Law: a line that starts with a path offers the device there, under the whole line;
/// one that starts with a space, or is empty, offers nothing.
pub proof fn law_what_a_line_says_of_disks(device: Seq<char>, rest: Seq<char>)
    requires
        !device.contains(' '),
    ensures
        device.len() > 0 ==> disks_in(seq![device]) == seq![
            DiskView { label: trimmed(device), device },
        ],
        device.len() > 0 ==> disks_in(seq![device + seq![' '] + rest]) == seq![
            DiskView { label: trimmed(device + seq![' '] + rest), device },
        ],
        disks_in(seq![seq![' '] + rest]).len() == 0,
        disks_in(seq![seq![]]).len() == 0,
{
    let line = device + seq![' '] + rest;
    let spaced = seq![' '] + rest;
    let none: Seq<char> = seq![];
    lemma_first_field(device, ' ');
    assert forall|k: int| 0 <= k < device.len() implies line[k] != ' ' by {
        assert(device.contains(device[k]));
        assert(line[k] == device[k]);
    }
    lemma_field_before(line, ' ', device.len() as int);
    assert(line.take(device.len() as int) =~= device);
    lemma_field_before(spaced, ' ', 0);
    lemma_one_line(device);
    lemma_one_line(line);
    lemma_one_line(spaced);
    lemma_one_line(none);
}

/// Law: a line that gives the type of an interface as ethernet lists it, by what stands
/// before the first colon; any other line lists nothing.
pub proof fn law_what_a_line_says_of_interfaces(
    name: Seq<char>,
    between: Seq<char>,
    rest: Seq<char>,
    other: Seq<char>,
)
    requires
        !name.contains(':'),
        between.len() == 0 || between[0] == ':',
        !holds(other, ":ethernet"@),
    ensures
        interfaces_in(seq![name + between + ":ethernet"@ + rest]) == seq![name],
        interfaces_in(seq![other]).len() == 0,
{
    reveal_strlit(":ethernet");
    let head = name + between;
    let line = head + ":ethernet"@ + rest;
    law_found_where_it_stands(head, ":ethernet"@, rest);
    assert forall|k: int| 0 <= k < name.len() implies line[k] != ':' by {
        assert(name.contains(name[k]));
        assert(line[k] == name[k]);
    }
    assert(line[name.len() as int] == ':') by {
        if between.len() == 0 {
            assert(line[name.len() as int] == ":ethernet"@[0]);
        } else {
            assert(line[name.len() as int] == between[0]);
        }
    }
    lemma_field_before(line, ':', name.len() as int);
    assert(line.take(name.len() as int) =~= name);
    lemma_one_line(line);
    lemma_one_line(other);
}

/// What one line lists.
proof fn lemma_one_line(line: Seq<char>)
    ensures
        disks_in(seq![line]) == (if first_field(line, ' ').len() == 0 {
            Seq::<DiskView>::empty()
        } else {
            seq![DiskView { label: trimmed(line), device: first_field(line, ' ') }]
        }),
        interfaces_in(seq![line]) == (if holds(line, ":ethernet"@) {
            seq![first_field(line, ':')]
        } else {
            Seq::<Seq<char>>::empty()
        }),
{
    let one = seq![line];
    assert(one.drop_last() =~= seq![]);
    reveal_with_fuel(disks_in, 2);
    reveal_with_fuel(interfaces_in, 2);
    assert(disks_in(one.drop_last()) =~= seq![]);
    assert(interfaces_in(one.drop_last()) =~= seq![]);
    assert(Seq::<DiskView>::empty().push(
        DiskView { label: trimmed(line), device: first_field(line, ' ') },
    ) =~= seq![DiskView { label: trimmed(line), device: first_field(line, ' ') }]);
    assert(Seq::<Seq<char>>::empty().push(first_field(line, ':')) =~= seq![first_field(line, ':')]);
}

/// The first field ends at the first separator.
proof fn lemma_field_before(s: Seq<char>, c: char, n: int)
    requires
        0 <= n < s.len(),
        s[n] == c,
        forall|k: int| 0 <= k < n ==> s[k] != c,
    ensures
        first_field(s, c) == s.take(n),
{
    lemma_first_at(s, c);
}

/// Without a separator the first field is all there is.
proof fn lemma_first_field(s: Seq<char>, c: char)
    requires
        !s.contains(c),
    ensures
        first_field(s, c) == s,
{
    lemma_first_at(s, c);
    if first_at(s, c) < s.len() {
        assert(s.contains(s[first_at(s, c)]));
    }
    assert(s.take(s.len() as int) =~= s);
}

/// Law: a command that succeeds counts as such whatever it writes; one that fails tells
/// what it wrote, and one that does not start tells its name and why.
pub proof fn law_how_a_command_went(program: Seq<char>, stderr: Seq<u8>, why: Seq<char>)
    ensures
        run_error(program, RunView::Exited { success: true, stderr }) is None,
        run_error(program, RunView::Exited { success: false, stderr }) == Some(
            trimmed(lossy(stderr)),
        ),
        run_error(program, RunView::NotStarted(why)) == Some(
            "failed to run "@ + program + ": "@ + why,
        ),
{
}

/// Law: a partition is named by the path of its disk and its number, with a `p` between
/// them where the path ends in a digit and nowhere else.
pub proof fn law_how_partitions_are_named(disk: Seq<char>, last: char, number: Seq<char>)
    ensures
        '0' <= last <= '9' ==> partition_of(disk.push(last), number) == disk.push(last) + "p"@
            + number,
        !('0' <= last <= '9') ==> partition_of(disk.push(last), number) == disk.push(last) + number,
        partition_of(seq![], number) == number,
{
    assert(partition_of(seq![], number) =~= number);
}

/// Law: a network is offered where a line that is not all white space and not two hyphens
/// gives its name, and nowhere else.
pub proof fn law_which_networks_are_offered(lines: Seq<Seq<char>>, k: int, name: Seq<char>)
    requires
        0 <= k < lines.len(),
    ensures
        (exists|i: int| 0 <= i < lines[k].len() && !white(#[trigger] lines[k][i])) && lines[k]
            != "--"@ ==> networks_in(lines).contains(lines[k]),
        networks_in(lines).contains(name) ==> lines.contains(name) && name != "--"@ && exists|i: int|
            0 <= i < name.len() && !white(#[trigger] name[i]),
{
    law_networks_are_offered_once(lines);
    let line = lines[k];
    let (a, b) = law_trimming_takes_white_space(line);
    let (c, d) = law_trimming_takes_white_space(name);
    if exists|i: int| 0 <= i < line.len() && !white(#[trigger] line[i]) {
        let i = choose|i: int| 0 <= i < line.len() && !white(#[trigger] line[i]);
        assert(a <= i < b);
    }
    if networks_in(lines).contains(name) {
        assert(trimmed(name).len() > 0);
        assert(!white(name[c]));
    }
}

} // verus!
