//! The daemon: who may ask, what is uploaded, and how a build is run and ended.

use vstd::prelude::*;

use crate::client::COMPLETE;
use crate::system::{cmd, command, Command, CommandView};
use crate::text::{decimal, decimal_text, signed_decimal, signed_decimal_text};

verus! {

/// The directory from which systems are built.
pub const STORE_DIR: &'static str = "/var/lib/glacier";

/// Who sends a request.
#[derive(Clone, Copy, Debug, PartialEq, Eq, Structural)]
pub enum Caller {
    /// The request names no sender.
    Unknown,
    /// A process of the user with this number.
    User(u32),
}

/// Why a request is refused.
#[derive(Clone, Copy, Debug, PartialEq, Eq, Structural)]
pub enum Refusal {
    NoSender,
    RootOnly,
}

/// What the sender of a refused request is told.
pub open spec fn refusal_text(refusal: Refusal) -> Seq<char> {
    match refusal {
        Refusal::NoSender => "No sender"@,
        Refusal::RootOnly => "Root only"@,
    }
}

/// Why a request of this caller is refused; `None` for root, whose requests are
/// met.
pub open spec fn refused(caller: Caller) -> Option<Refusal> {
    match caller {
        Caller::Unknown => Some(Refusal::NoSender),
        Caller::User(uid) => if uid == 0 {
            None
        } else {
            Some(Refusal::RootOnly)
        },
    }
}

impl Refusal {
    /// What the sender of the refused request is told.
    pub fn message(&self) -> (r: String)
        ensures
            r@ == refusal_text(*self),
    {
        match self {
            Refusal::NoSender => "No sender".to_string(),
            Refusal::RootOnly => "Root only".to_string(),
        }
    }
}

/// Lets root pass, and nobody else.
pub fn authorize(caller: Caller) -> (r: Result<(), Refusal>)
    ensures
        match r {
            Ok(_) => refused(caller) is None,
            Err(refusal) => refused(caller) == Some(refusal),
        },
{
    match caller {
        Caller::Unknown => Err(Refusal::NoSender),
        Caller::User(uid) => if uid == 0 {
            Ok(())
        } else {
            Err(Refusal::RootOnly)
        },
    }
}

/// What a cancellation does.
#[derive(Debug)]
pub struct Cancel {
    /// What to hand to `kill` with the signal to terminate, if anything.
    pub target: Option<i32>,
    /// What the caller is told.
    pub message: String,
}

/// The number by which `kill` knows the group of the process `pid`: `-pid`, in 32
/// bits.
pub open spec fn group_of(pid: u32) -> int {
    if pid <= i32::MAX {
        -pid
    } else if pid == i32::MAX + 1 {
        i32::MIN as int
    } else {
        0x1_0000_0000 - pid
    }
}

/// What a cancellation hands to `kill`, if anything, where these processes are
/// noted: the group of the one that was noted last.
pub open spec fn cancel_target(noted: Seq<u32>) -> Option<int> {
    if noted.len() > 0 {
        Some(group_of(noted.last()))
    } else {
        None
    }
}

/// What the caller of a cancellation is told.
pub open spec fn cancel_text(noted: Seq<u32>) -> Seq<char> {
    if noted.len() > 0 {
        "Sent SIGTERM to process group "@ + decimal(noted.last() as nat)
    } else {
        "No active build to cancel"@
    }
}

/// The processes that stay noted after a cancellation.
pub open spec fn cancelled(noted: Seq<u32>) -> Seq<u32> {
    if noted.len() > 0 {
        noted.drop_last()
    } else {
        noted
    }
}

/// The noted processes without `pid`: without the last of its entries, where there
/// are several.
pub open spec fn forgotten(noted: Seq<u32>, pid: u32) -> Seq<u32>
    decreases noted.len(),
{
    if noted.len() == 0 {
        noted
    } else if noted.last() == pid {
        noted.drop_last()
    } else {
        forgotten(noted.drop_last(), pid).push(noted.last())
    }
}

/// What the daemon knows: the processes of the builds that are running and can be
/// cancelled, in the order in which they started.
pub struct Glacier {
    active_pids: Vec<u32>,
}

impl Glacier {
    /// The processes of the builds that are running and can be cancelled.
    pub closed spec fn noted(&self) -> Seq<u32> {
        self.active_pids@
    }

    /// A daemon that runs no build.
    pub fn new() -> (r: Glacier)
        ensures
            r.noted() == Seq::<u32>::empty(),
    {
        Glacier { active_pids: Vec::new() }
    }

    /// A build runs in the process `pid`.
    pub fn store(&mut self, pid: u32)
        ensures
            final(self).noted() == old(self).noted().push(pid),
    {
        self.active_pids.push(pid);
    }

    /// The build in the process `pid` has ended.
    pub fn clear(&mut self, pid: u32)
        ensures
            final(self).noted() == forgotten(old(self).noted(), pid),
    {
        let ghost all = self.active_pids@;
        let mut i: usize = self.active_pids.len();
        assert(all.take(i as int) + all.skip(i as int) =~= all);
        assert(forgotten(all.take(i as int), pid) + all.skip(i as int) =~= forgotten(all, pid)) by {
            assert(all.take(i as int) =~= all);
        }
        while i > 0
            invariant
                i <= all.len(),
                self.active_pids@ == all,
                all == old(self).noted(),
                forgotten(all.take(i as int), pid) + all.skip(i as int) == forgotten(all, pid),
            decreases i,
        {
            i -= 1;
            proof {
                let some = all.take(i + 1);
                assert(some.last() == all[i as int]);
                assert(some.drop_last() =~= all.take(i as int));
            }
            if self.active_pids[i] == pid {
                self.active_pids.remove(i);
                assert(all.remove(i as int) =~= all.take(i as int) + all.skip(i + 1));
                return;
            }
            assert(forgotten(all.take(i as int), pid).push(all[i as int]) + all.skip(i + 1)
                =~= forgotten(all.take(i as int), pid) + all.skip(i as int));
        }
        assert(forgotten(all.take(0), pid) + all.skip(0) =~= all);
    }

    /// Ends the build that started last among those that can be cancelled, if there
    /// is one and root asks for it.
    pub fn cancel(&mut self, caller: Caller) -> (r: Result<Cancel, Refusal>)
        ensures
            match r {
                Ok(cancel) => {
                    &&& refused(caller) is None
                    &&& final(self).noted() == cancelled(old(self).noted())
                    &&& cancel.message@ == cancel_text(old(self).noted())
                    &&& match cancel.target {
                        Some(target) => cancel_target(old(self).noted()) == Some(target as int),
                        None => cancel_target(old(self).noted()) is None,
                    }
                },
                Err(refusal) => refused(caller) == Some(refusal) && *final(self) == *old(self),
            },
    {
        match authorize(caller) {
            Err(refusal) => Err(refusal),
            Ok(_) => match self.active_pids.pop() {
                Some(pid) => {
                    let target: i32 = if pid <= 0x7fff_ffff {
                        -(pid as i32)
                    } else if pid == 0x8000_0000 {
                        i32::MIN
                    } else {
                        (0x1_0000_0000u64 - pid as u64) as i32
                    };
                    let mut message = "Sent SIGTERM to process group ".to_string();
                    message.append(decimal_text(pid as u64).as_str());
                    Ok(Cancel { target: Some(target), message })
                },
                None => Ok(
                    Cancel { target: None, message: "No active build to cancel".to_string() },
                ),
            },
        }
    }
}

/// What an upload waits for.
#[derive(Clone, Copy, Debug, PartialEq, Eq, Structural)]
pub enum UploadStage {
    CreateDir,
    List,
    Copy,
    Ended,
}

/// What an upload asks for.
#[derive(Debug)]
pub enum UploadRequest {
    /// Create a directory and those above it.
    CreateDir(String),
    /// List the entries of a directory.
    List(String),
    /// Copy these entries into a directory, over what is there or not.
    CopyTo { items: Vec<Vec<u8>>, dir: String, overwrite: bool },
    /// Answer the request with this message.
    Succeed(String),
    /// Answer the request with this error.
    Fail(String),
}

/// The value of an `UploadRequest`.
pub enum UploadView {
    CreateDir(Seq<char>),
    List(Seq<char>),
    CopyTo { items: Seq<Seq<u8>>, dir: Seq<char>, overwrite: bool },
    Succeed(Seq<char>),
    Fail(Seq<char>),
}

impl DeepView for UploadRequest {
    type V = UploadView;

    open spec fn deep_view(&self) -> UploadView {
        match self {
            UploadRequest::CreateDir(path) => UploadView::CreateDir(path@),
            UploadRequest::List(path) => UploadView::List(path@),
            UploadRequest::CopyTo { items, dir, overwrite } => UploadView::CopyTo {
                items: items.deep_view(),
                dir: dir@,
                overwrite: *overwrite,
            },
            UploadRequest::Succeed(message) => UploadView::Succeed(message@),
            UploadRequest::Fail(error) => UploadView::Fail(error@),
        }
    }
}

/// The reply to a request of an upload.
#[derive(Debug)]
pub enum UploadReply {
    /// It was met.
    Done,
    /// These are the entries, as the bytes of their paths.
    Entries(Vec<Vec<u8>>),
    /// It could not be met, for this reason.
    Failed(String),
}

/// The value of an `UploadReply`.
pub enum UploadReplyView {
    Done,
    Entries(Seq<Seq<u8>>),
    Failed(Seq<char>),
}

impl DeepView for UploadReply {
    type V = UploadReplyView;

    open spec fn deep_view(&self) -> UploadReplyView {
        match self {
            UploadReply::Done => UploadReplyView::Done,
            UploadReply::Entries(items) => UploadReplyView::Entries(items.deep_view()),
            UploadReply::Failed(why) => UploadReplyView::Failed(why@),
        }
    }
}

/// What is known of an upload.
#[verifier::ext_equal]
pub struct UploadModel {
    pub stage: UploadStage,
    /// The directory that is uploaded.
    pub src: Seq<char>,
}

impl UploadModel {
    /// The model with another stage.
    pub open spec fn to(self, stage: UploadStage) -> UploadModel {
        UploadModel { stage, ..self }
    }

    /// Whether this is a reply to the last request.
    pub open spec fn awaits(self, reply: UploadReplyView) -> bool {
        match self.stage {
            UploadStage::CreateDir | UploadStage::Copy => !(reply is Entries),
            UploadStage::List => !(reply is Done),
            UploadStage::Ended => false,
        }
    }
}

/// The first request of an upload: to answer with the refusal, or to create the
/// directory.
pub open spec fn upload_opening(caller: Caller, src: Seq<char>) -> (UploadModel, UploadView) {
    match refused(caller) {
        Some(refusal) => (
            UploadModel { stage: UploadStage::Ended, src },
            UploadView::Fail(refusal_text(refusal)),
        ),
        None => (
            UploadModel { stage: UploadStage::CreateDir, src },
            UploadView::CreateDir(STORE_DIR@),
        ),
    }
}

/// What an upload asks for next, given the reply to its last request.
pub open spec fn uploaded(m: UploadModel, reply: UploadReplyView) -> (UploadModel, UploadView) {
    match (m.stage, reply) {
        (UploadStage::List, UploadReplyView::Entries(items)) => (
            m.to(UploadStage::Copy),
            UploadView::CopyTo { items, dir: STORE_DIR@, overwrite: true },
        ),
        (UploadStage::Copy, UploadReplyView::Failed(why)) => (
            m.to(UploadStage::Ended),
            UploadView::Fail("Copy failed: "@ + why),
        ),
        (_, UploadReplyView::Failed(why)) => (m.to(UploadStage::Ended), UploadView::Fail(why)),
        (UploadStage::CreateDir, _) => (m.to(UploadStage::List), UploadView::List(m.src)),
        _ => (
            m.to(UploadStage::Ended),
            UploadView::Succeed("Uploaded contents of "@ + m.src + " to "@ + STORE_DIR@),
        ),
    }
}

/// An upload of a configuration.
pub struct Upload {
    stage: UploadStage,
    src: String,
}

impl Upload {
    /// What is known of the upload.
    pub closed spec fn model(&self) -> UploadModel {
        UploadModel { stage: self.stage, src: self.src@ }
    }

    /// An upload of the directory `src` for this caller, and its first request.
    pub fn new(caller: Caller, src: String) -> (r: (Upload, UploadRequest))
        ensures
            (r.0.model(), r.1.deep_view()) == upload_opening(caller, src@),
    {
        match authorize(caller) {
            Err(refusal) => (
                Upload { stage: UploadStage::Ended, src },
                UploadRequest::Fail(refusal.message()),
            ),
            Ok(_) => (
                Upload { stage: UploadStage::CreateDir, src },
                UploadRequest::CreateDir(STORE_DIR.to_string()),
            ),
        }
    }

    /// Goes on with the reply to the last request.
    pub fn step(&mut self, reply: UploadReply) -> (r: UploadRequest)
        requires
            old(self).model().awaits(reply.deep_view()),
        ensures
            (final(self).model(), r.deep_view()) == uploaded(
                old(self).model(),
                reply.deep_view(),
            ),
    {
        match reply {
            UploadReply::Entries(items) => {
                self.stage = UploadStage::Copy;
                UploadRequest::CopyTo { items, dir: STORE_DIR.to_string(), overwrite: true }
            },
            UploadReply::Failed(why) => {
                let error = if self.stage == UploadStage::Copy {
                    let mut s = "Copy failed: ".to_string();
                    s.append(why.as_str());
                    s
                } else {
                    why
                };
                self.stage = UploadStage::Ended;
                UploadRequest::Fail(error)
            },
            UploadReply::Done => {
                if self.stage == UploadStage::CreateDir {
                    self.stage = UploadStage::List;
                    UploadRequest::List(self.src.clone())
                } else {
                    self.stage = UploadStage::Ended;
                    let mut s = "Uploaded contents of ".to_string();
                    s.append(self.src.as_str());
                    s.append(" to ");
                    s.append(STORE_DIR);
                    UploadRequest::Succeed(s)
                }
            },
        }
    }
}

/// The command that builds the system `name` and switches to it.
pub open spec fn rebuild(name: Seq<char>) -> CommandView {
    cmd(
        "nixos-rebuild"@,
        seq![
            "switch"@,
            "--flake"@,
            ".#"@ + name,
            "--log-format"@,
            "bar-with-logs"@,
            "-L"@,
            "--show-trace"@,
        ],
    )
}

/// A switch that was granted.
#[derive(Debug)]
pub struct Switch {
    /// The command that builds the system and switches to it.
    pub command: Command,
    /// The directory to run it in.
    pub dir: String,
    /// What the caller is told.
    pub message: String,
}

/// Starts a switch to the system `name`, if root asks for it.
pub fn switch(caller: Caller, name: &str) -> (r: Result<Switch, Refusal>)
    ensures
        match r {
            Ok(granted) => {
                &&& refused(caller) is None
                &&& granted.command.deep_view() == rebuild(name@)
                &&& granted.dir@ == STORE_DIR@
                &&& granted.message@ == "Switching to "@ + name@ + "..."@
            },
            Err(refusal) => refused(caller) == Some(refusal),
        },
{
    match authorize(caller) {
        Err(refusal) => Err(refusal),
        Ok(_) => {
            let mut flake = ".#".to_string();
            flake.append(name);
            let args = vec![
                "switch",
                "--flake",
                flake.as_str(),
                "--log-format",
                "bar-with-logs",
                "-L",
                "--show-trace",
            ];
            assert(args.deep_view() =~= rebuild(name@).args);
            let mut message = "Switching to ".to_string();
            message.append(name);
            message.append("...");
            let dir = STORE_DIR.to_string();
            Ok(Switch { command: command("nixos-rebuild", args), dir, message })
        },
    }
}

/// What a build waits for.
#[derive(Clone, Copy, Debug, PartialEq, Eq, Structural)]
pub enum BuildStage {
    /// The start of the process.
    Starting,
    /// The next line of its output.
    Reading,
    /// The end of the process.
    Waiting,
    /// Nothing.
    Ended,
}

/// Something that happens to a build.
#[derive(Debug)]
pub enum BuildEvent {
    /// The process could not be started, for this reason.
    NotStarted(String),
    /// The process was started, under this number where it is known.
    Started(Option<u32>),
    /// It wrote a line to its standard output; `None`: no further one, or one that
    /// cannot be read. The process may run on either way.
    Stdout(Option<String>),
    /// It wrote a line to its standard error; `None`: there is none, or it cannot
    /// be read.
    Stderr(Option<String>),
    /// The process succeeded.
    Succeeded,
    /// The process failed, with this status where it has one.
    Failed(Option<i32>),
    /// The end of the process could not be awaited, for this reason.
    NotAwaited(String),
}

/// The value of a `BuildEvent`.
pub enum BuildEventView {
    NotStarted(Seq<char>),
    Started(Option<u32>),
    Stdout(Option<Seq<char>>),
    Stderr(Option<Seq<char>>),
    Succeeded,
    Failed(Option<i32>),
    NotAwaited(Seq<char>),
}

impl DeepView for BuildEvent {
    type V = BuildEventView;

    open spec fn deep_view(&self) -> BuildEventView {
        match self {
            BuildEvent::NotStarted(why) => BuildEventView::NotStarted(why@),
            BuildEvent::Started(pid) => BuildEventView::Started(*pid),
            BuildEvent::Stdout(line) => BuildEventView::Stdout(line.deep_view()),
            BuildEvent::Stderr(line) => BuildEventView::Stderr(line.deep_view()),
            BuildEvent::Succeeded => BuildEventView::Succeeded,
            BuildEvent::Failed(code) => BuildEventView::Failed(*code),
            BuildEvent::NotAwaited(why) => BuildEventView::NotAwaited(why@),
        }
    }
}

/// What to do about an event of a build.
#[derive(Debug)]
pub enum BuildAction {
    /// Send a line to whoever follows the build.
    Emit(String),
    /// Note the process of the build.
    StorePid(u32),
    /// Forget the process of the build.
    ClearPid(u32),
}

/// The value of a `BuildAction`.
pub enum BuildView {
    Emit(Seq<char>),
    StorePid(u32),
    ClearPid(u32),
}

impl DeepView for BuildAction {
    type V = BuildView;

    open spec fn deep_view(&self) -> BuildView {
        match self {
            BuildAction::Emit(line) => BuildView::Emit(line@),
            BuildAction::StorePid(pid) => BuildView::StorePid(*pid),
            BuildAction::ClearPid(pid) => BuildView::ClearPid(*pid),
        }
    }
}

/// The line that says that a build failed with this status.
pub open spec fn failure_line(code: int) -> Seq<char> {
    "--- Switch Failed with code "@ + signed_decimal(code) + " ---"@
}

/// What is known of a build.
#[verifier::ext_equal]
pub struct BuildModel {
    pub stage: BuildStage,
    /// The number of its process, where it is known.
    pub pid: Option<u32>,
}

impl BuildModel {
    /// A build whose process is not started yet.
    pub open spec fn starting() -> BuildModel {
        BuildModel { stage: BuildStage::Starting, pid: None }
    }

    /// The model with another stage.
    pub open spec fn to(self, stage: BuildStage) -> BuildModel {
        BuildModel { stage, ..self }
    }

    /// Whether the process has been started and has not ended.
    pub open spec fn running(self) -> bool {
        self.stage == BuildStage::Reading || self.stage == BuildStage::Waiting
    }
}

/// Hand on a line, if there is one.
pub open spec fn relay(line: Option<Seq<char>>) -> Seq<BuildView> {
    match line {
        Some(text) => seq![BuildView::Emit(text)],
        None => seq![],
    }
}

/// The end of a build: its process is forgotten, and then it is reported.
pub open spec fn reported(m: BuildModel, report: Seq<char>) -> (BuildModel, Seq<BuildView>) {
    (
        m.to(BuildStage::Ended),
        match m.pid {
            Some(pid) => seq![BuildView::ClearPid(pid), BuildView::Emit(report)],
            None => seq![BuildView::Emit(report)],
        },
    )
}

/// The report of how a process ended.
pub open spec fn report_of(end: BuildEventView) -> Seq<char> {
    match end {
        BuildEventView::Succeeded => COMPLETE@,
        BuildEventView::Failed(Some(code)) => failure_line(code as int),
        BuildEventView::Failed(None) => failure_line(1),
        BuildEventView::NotAwaited(why) => "--- Switch Error: "@ + why + " ---"@,
        _ => seq![],
    }
}

/// Whether an event is the end of the process.
pub open spec fn is_end(event: BuildEventView) -> bool {
    event is Succeeded || event is Failed || event is NotAwaited
}

/// What an event means for a build, and what to do about it, in this order. An event
/// that cannot come at this stage means nothing.
pub open spec fn built(m: BuildModel, event: BuildEventView) -> (BuildModel, Seq<BuildView>) {
    match (m.stage, event) {
        (BuildStage::Starting, BuildEventView::NotStarted(why)) => (
            m.to(BuildStage::Ended),
            seq![BuildView::Emit("Error: "@ + why)],
        ),
        (BuildStage::Starting, BuildEventView::Started(Some(pid))) => (
            BuildModel { stage: BuildStage::Reading, pid: Some(pid) },
            seq![BuildView::StorePid(pid)],
        ),
        (BuildStage::Starting, BuildEventView::Started(None)) => (
            BuildModel { stage: BuildStage::Reading, pid: None },
            seq![],
        ),
        (BuildStage::Reading, BuildEventView::Stdout(None)) => (m.to(BuildStage::Waiting), seq![]),
        (BuildStage::Reading, BuildEventView::Stdout(line)) => (m, relay(line)),
        (BuildStage::Reading, BuildEventView::Stderr(line)) => (m, relay(line)),
        (BuildStage::Waiting, _) => if is_end(event) {
            reported(m, report_of(event))
        } else {
            (m, seq![])
        },
        _ => (m, seq![]),
    }
}

/// A build that is run for a switch.
pub struct Build {
    stage: BuildStage,
    pid: Option<u32>,
}

/// Nothing to do.
fn nothing() -> (r: Vec<BuildAction>)
    ensures
        r.deep_view() == Seq::<BuildView>::empty(),
{
    let r: Vec<BuildAction> = Vec::new();
    assert(r.deep_view() =~= Seq::<BuildView>::empty());
    r
}

/// One thing to do.
fn only(action: BuildAction) -> (r: Vec<BuildAction>)
    ensures
        r.deep_view() == seq![action.deep_view()],
{
    let r = vec![action];
    assert(r.deep_view() =~= seq![action.deep_view()]);
    r
}

impl Build {
    /// What is known of the build.
    pub closed spec fn model(&self) -> BuildModel {
        BuildModel { stage: self.stage, pid: self.pid }
    }

    /// A build whose process is not started yet.
    pub fn new() -> (r: Build)
        ensures
            r.model() == BuildModel::starting(),
    {
        Build { stage: BuildStage::Starting, pid: None }
    }

    /// What the build waits for.
    pub fn stage(&self) -> (r: BuildStage)
        ensures
            r == self.model().stage,
    {
        self.stage
    }

    /// Ends the build with a report.
    fn report(&mut self, line: String) -> (r: Vec<BuildAction>)
        ensures
            (final(self).model(), r.deep_view()) == reported(old(self).model(), line@),
    {
        self.stage = BuildStage::Ended;
        match self.pid {
            Some(pid) => {
                let r = vec![BuildAction::ClearPid(pid), BuildAction::Emit(line)];
                assert(r.deep_view() =~= seq![BuildView::ClearPid(pid), BuildView::Emit(line@)]);
                r
            },
            None => only(BuildAction::Emit(line)),
        }
    }

    /// Takes in an event: says what to do about it, in this order.
    pub fn step(&mut self, event: BuildEvent) -> (r: Vec<BuildAction>)
        ensures
            (final(self).model(), r.deep_view()) == built(old(self).model(), event.deep_view()),
    {
        match self.stage {
            BuildStage::Starting => match event {
                BuildEvent::NotStarted(why) => {
                    self.stage = BuildStage::Ended;
                    let mut line = "Error: ".to_string();
                    line.append(why.as_str());
                    only(BuildAction::Emit(line))
                },
                BuildEvent::Started(pid) => {
                    self.stage = BuildStage::Reading;
                    self.pid = pid;
                    match pid {
                        Some(pid) => only(BuildAction::StorePid(pid)),
                        None => nothing(),
                    }
                },
                _ => nothing(),
            },
            BuildStage::Reading => match event {
                BuildEvent::Stdout(None) => {
                    self.stage = BuildStage::Waiting;
                    nothing()
                },
                BuildEvent::Stdout(Some(line)) => only(BuildAction::Emit(line)),
                BuildEvent::Stderr(Some(line)) => only(BuildAction::Emit(line)),
                _ => nothing(),
            },
            BuildStage::Waiting => match event {
                BuildEvent::Succeeded => self.report(COMPLETE.to_string()),
                BuildEvent::Failed(code) => {
                    let code: i32 = match code {
                        Some(n) => n,
                        None => 1,
                    };
                    let mut line = "--- Switch Failed with code ".to_string();
                    line.append(signed_decimal_text(code).as_str());
                    line.append(" ---");
                    self.report(line)
                },
                BuildEvent::NotAwaited(why) => {
                    let mut line = "--- Switch Error: ".to_string();
                    line.append(why.as_str());
                    line.append(" ---");
                    self.report(line)
                },
                _ => nothing(),
            },
            BuildStage::Ended => nothing(),
        }
    }
}

/// Law: root is served, another user is refused as such, and so is a request without a
/// sender.
pub proof fn law_who_is_served(uid: u32)
    ensures
        refused(Caller::User(uid)) is None <==> uid == 0,
        uid != 0 ==> refused(Caller::User(uid)) == Some(Refusal::RootOnly),
        refused(Caller::Unknown) == Some(Refusal::NoSender),
        refusal_text(Refusal::RootOnly) == "Root only"@,
        refusal_text(Refusal::NoSender) == "No sender"@,
{
}

/// Law: the build that was noted last is cancelled, its number is told, and the others stay
/// noted.
pub proof fn law_the_last_noted_is_cancelled(noted: Seq<u32>, pid: u32)
    ensures
        pid <= i32::MAX ==> cancel_target(noted.push(pid)) == Some(-(pid as int)),
        pid > i32::MAX ==> cancel_target(noted.push(pid)) == Some(
            if pid == 0x8000_0000 {
                -(pid as int)
            } else {
                0x1_0000_0000 - pid
            },
        ),
        cancel_text(noted.push(pid)) == "Sent SIGTERM to process group "@ + decimal(pid as nat),
        cancelled(noted.push(pid)) == noted,
        cancel_target(seq![]) is None,
        cancel_text(seq![]) == "No active build to cancel"@,
        cancelled(seq![]) == Seq::<u32>::empty(),
{
    assert(noted.push(pid).drop_last() =~= noted);
}

/// Law: a process that is forgotten is taken out of the notes, and all else stays where it
/// is; one that is not noted changes nothing.
pub proof fn law_what_is_forgotten(before: Seq<u32>, pid: u32, after: Seq<u32>)
    requires
        !after.contains(pid),
    ensures
        forgotten(before.push(pid) + after, pid) == before + after,
        forgotten(after, pid) == after,
    decreases after.len(),
{
    if after.len() == 0 {
        assert(before.push(pid) + after =~= before.push(pid));
        assert(before.push(pid).drop_last() =~= before + after);
    } else {
        let front = after.drop_last();
        let all = before.push(pid) + after;
        assert(!front.contains(pid)) by {
            if front.contains(pid) {
                let k = choose|k: int| 0 <= k < front.len() && front[k] == pid;
                assert(after[k] == pid);
            }
        }
        assert(after.contains(after[after.len() - 1]));
        assert(all.drop_last() =~= before.push(pid) + front);
        law_what_is_forgotten(before, pid, front);
        assert((before + front).push(after.last()) =~= before + after);
        assert(front.push(after.last()) =~= after);
    }
}

/// Law: the command of a switch builds the flake of the name that was given.
pub proof fn law_what_a_switch_runs(name: Seq<char>)
    ensures
        rebuild(name).program == "nixos-rebuild"@,
        rebuild(name).args == seq![
            "switch"@,
            "--flake"@,
            ".#"@ + name,
            "--log-format"@,
            "bar-with-logs"@,
            "-L"@,
            "--show-trace"@,
        ],
        STORE_DIR@ == "/var/lib/glacier"@,
{
}

/// Law: an upload for root creates the directory, lists the one that was named, copies what
/// was listed, and tells so; an error ends it and is told, with the copy named as its place.
pub proof fn law_the_course_of_an_upload(src: Seq<char>, items: Seq<Seq<u8>>, why: Seq<char>)
    ensures
        ({
            let (m0, first) = upload_opening(Caller::User(0), src);
            let (m1, second) = uploaded(m0, UploadReplyView::Done);
            let (m2, third) = uploaded(m1, UploadReplyView::Entries(items));
            let (m3, last) = uploaded(m2, UploadReplyView::Done);
            &&& first == UploadView::CreateDir("/var/lib/glacier"@)
            &&& second == UploadView::List(src)
            &&& third == (UploadView::CopyTo {
                items,
                dir: "/var/lib/glacier"@,
                overwrite: true,
            })
            &&& last == UploadView::Succeed(
                "Uploaded contents of "@ + src + " to "@ + "/var/lib/glacier"@,
            )
            &&& m3.stage == UploadStage::Ended
            &&& m0.awaits(UploadReplyView::Done) && m1.awaits(UploadReplyView::Entries(items))
                && m2.awaits(UploadReplyView::Done)
            &&& uploaded(m0, UploadReplyView::Failed(why)).1 == UploadView::Fail(why)
            &&& uploaded(m1, UploadReplyView::Failed(why)).1 == UploadView::Fail(why)
            &&& uploaded(m2, UploadReplyView::Failed(why)).1 == UploadView::Fail(
                "Copy failed: "@ + why,
            )
            &&& uploaded(m0, UploadReplyView::Failed(why)).0.stage == UploadStage::Ended
            &&& uploaded(m1, UploadReplyView::Failed(why)).0.stage == UploadStage::Ended
            &&& uploaded(m2, UploadReplyView::Failed(why)).0.stage == UploadStage::Ended
        }),
{
}

/// Law: how a build starts: its process is noted where its number is known, and that it could
/// not be started is told.
pub proof fn law_how_a_build_starts(pid: u32, why: Seq<char>)
    ensures
        ({
            let m = BuildModel::starting();
            let (noted, store) = built(m, BuildEventView::Started(Some(pid)));
            let (unknown, nothing) = built(m, BuildEventView::Started(None));
            let (ended, told) = built(m, BuildEventView::NotStarted(why));
            &&& noted == (BuildModel { stage: BuildStage::Reading, pid: Some(pid) })
            &&& store == seq![BuildView::StorePid(pid)]
            &&& unknown == (BuildModel { stage: BuildStage::Reading, pid: None })
            &&& nothing.len() == 0
            &&& ended.stage == BuildStage::Ended
            &&& told == seq![BuildView::Emit("Error: "@ + why)]
        }),
{
}

/// Law: while a build is read, each line of either stream is sent as it is. The end of the
/// standard output ends the reading, and that of the standard error does not.
pub proof fn law_how_a_build_is_read(m: BuildModel, line: Seq<char>)
    requires
        m.stage == BuildStage::Reading,
    ensures
        built(m, BuildEventView::Stdout(Some(line))) == (m, seq![BuildView::Emit(line)]),
        built(m, BuildEventView::Stderr(Some(line))) == (m, seq![BuildView::Emit(line)]),
        built(m, BuildEventView::Stderr(None)) == (m, Seq::<BuildView>::empty()),
        built(m, BuildEventView::Stdout(None)) == (
            BuildModel { stage: BuildStage::Waiting, pid: m.pid },
            Seq::<BuildView>::empty(),
        ),
{
}

/// Law: what is reported of the end of a build, with the status where there is one.
pub proof fn law_what_is_reported(m: BuildModel, code: i32, why: Seq<char>)
    requires
        m.stage == BuildStage::Waiting,
    ensures
        built(m, BuildEventView::Succeeded).1.last() == BuildView::Emit(
            "--- Switch Complete ---"@,
        ),
        built(m, BuildEventView::Failed(Some(code))).1.last() == BuildView::Emit(
            "--- Switch Failed with code "@ + signed_decimal(code as int) + " ---"@,
        ),
        built(m, BuildEventView::Failed(None)).1.last() == BuildView::Emit(
            "--- Switch Failed with code "@ + signed_decimal(1) + " ---"@,
        ),
        built(m, BuildEventView::NotAwaited(why)).1.last() == BuildView::Emit(
            "--- Switch Error: "@ + why + " ---"@,
        ),
{
}

} // verus!
