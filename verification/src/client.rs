//! Following a build: the one that the daemon runs, and the one of the installer.

use vstd::prelude::*;

use crate::flow::{out, out_text, Line, LineView};
use crate::log::{
    aborted, finished, lemma_well_formed, logged, LogModel, LogProcessor, UiAction, UiView,
};
use crate::pattern::{log_line, patterns_accepted};
use crate::style::{plain, span, styled, Span, SpanView, Style};
use crate::system::{cmd, command, Command, CommandView};
use crate::text::{contains, holds, law_found_where_it_stands};

verus! {

/// What a line holds that says that a switch is complete.
pub const COMPLETE: &'static str = "--- Switch Complete ---";

/// What a line holds that says that a switch failed.
pub const FAILED: &'static str = "--- Switch Failed";

/// What the end of a switch waits for.
#[derive(Clone, Copy, Debug, PartialEq, Eq, Structural)]
pub enum SwitchStage {
    /// The next line of the build.
    Streaming,
    /// The reply to a cancellation.
    Cancelling,
    /// Nothing.
    Ended,
}

/// Something that happens while a build of the daemon is followed.
#[derive(Debug)]
pub enum SwitchEvent {
    /// The user interrupts.
    Interrupted,
    /// A line of the build arrives.
    Line(String),
    /// A line of the build arrives that cannot be read.
    Unreadable,
    /// No more lines will come.
    Closed,
    /// The daemon answers a cancellation with this message.
    Cancelled(String),
    /// The cancellation fails with this error.
    NotCancelled(String),
}

/// The value of a `SwitchEvent`.
pub enum SwitchEventView {
    Interrupted,
    Line(Seq<char>),
    Unreadable,
    Closed,
    Cancelled(Seq<char>),
    NotCancelled(Seq<char>),
}

impl DeepView for SwitchEvent {
    type V = SwitchEventView;

    open spec fn deep_view(&self) -> SwitchEventView {
        match self {
            SwitchEvent::Interrupted => SwitchEventView::Interrupted,
            SwitchEvent::Line(line) => SwitchEventView::Line(line@),
            SwitchEvent::Unreadable => SwitchEventView::Unreadable,
            SwitchEvent::Closed => SwitchEventView::Closed,
            SwitchEvent::Cancelled(message) => SwitchEventView::Cancelled(message@),
            SwitchEvent::NotCancelled(error) => SwitchEventView::NotCancelled(error@),
        }
    }
}

/// What to do about an event, in this order.
#[derive(Debug)]
pub struct SwitchTurn {
    /// What to show.
    pub ui: Vec<UiAction>,
    /// What to print on the standard error, without ending the line.
    pub unended: Vec<Span>,
    /// What to print.
    pub lines: Vec<Line>,
}

/// The value of a `SwitchTurn`.
#[verifier::ext_equal]
pub struct SwitchTurnView {
    pub ui: Seq<UiView>,
    pub unended: Seq<SpanView>,
    pub lines: Seq<LineView>,
}

impl DeepView for SwitchTurn {
    type V = SwitchTurnView;

    open spec fn deep_view(&self) -> SwitchTurnView {
        SwitchTurnView {
            ui: self.ui.deep_view(),
            unended: self.unended.deep_view(),
            lines: self.lines.deep_view(),
        }
    }
}

/// What is known of a build that is followed.
#[verifier::ext_equal]
pub struct SwitchModel {
    pub stage: SwitchStage,
    pub log: LogModel,
}

/// Nothing to show or to print.
pub open spec fn silent() -> SwitchTurnView {
    SwitchTurnView { ui: seq![], unended: seq![], lines: seq![] }
}

/// Only something to show.
pub open spec fn showing(ui: Seq<UiView>) -> SwitchTurnView {
    SwitchTurnView { ui, ..silent() }
}

/// Only a line to print on the standard error.
pub open spec fn complaint(spans: Seq<SpanView>) -> SwitchTurnView {
    SwitchTurnView { lines: seq![LineView { stderr: true, spans }], ..silent() }
}

/// What a line of a build that is followed means.
pub open spec fn switch_line(m: SwitchModel, line: Seq<char>) -> (SwitchModel, SwitchTurnView) {
    if holds(line, COMPLETE@) {
        (
            SwitchModel { stage: SwitchStage::Ended, log: LogModel::idle() },
            showing(finished(m.log)),
        )
    } else if holds(line, FAILED@) {
        (
            SwitchModel { stage: SwitchStage::Ended, log: LogModel::idle() },
            SwitchTurnView {
                ui: aborted(m.log),
                ..complaint(
                    seq![
                        span(Style::Plain, "\n"@),
                        span(Style::RedBold, "❌ Build failed. Check the logs above."@),
                    ],
                )
            },
        )
    } else {
        let (log, ui) = logged(m.log, log_line(line));
        (SwitchModel { log, ..m }, showing(ui))
    }
}

/// What an event means for a build that is followed. An event that cannot come at
/// this stage means nothing.
pub open spec fn switched(m: SwitchModel, event: SwitchEventView) -> (SwitchModel, SwitchTurnView) {
    match (m.stage, event) {
        (SwitchStage::Streaming, SwitchEventView::Interrupted) => (
            SwitchModel { stage: SwitchStage::Cancelling, log: LogModel::idle() },
            SwitchTurnView {
                ui: aborted(m.log),
                unended: seq![
                    span(Style::Plain, "\n"@),
                    span(Style::YellowBold, "Cancelling build..."@),
                    span(Style::Plain, " "@),
                ],
                lines: seq![],
            },
        ),
        (SwitchStage::Streaming, SwitchEventView::Line(line)) => switch_line(m, line),
        (SwitchStage::Streaming, SwitchEventView::Closed) => (
            SwitchModel { stage: SwitchStage::Ended, ..m },
            silent(),
        ),
        (SwitchStage::Cancelling, SwitchEventView::Cancelled(message)) => (
            SwitchModel { stage: SwitchStage::Ended, ..m },
            complaint(seq![span(Style::Dimmed, message)]),
        ),
        (SwitchStage::Cancelling, SwitchEventView::NotCancelled(error)) => (
            SwitchModel { stage: SwitchStage::Ended, ..m },
            complaint(seq![span(Style::Red, "(cancel failed: "@ + error + ")"@)]),
        ),
        _ => (m, silent()),
    }
}

/// Follows a build of the daemon.
pub struct SwitchSession {
    stage: SwitchStage,
    logger: LogProcessor,
}

/// A turn with something to show.
fn show(ui: Vec<UiAction>) -> (r: SwitchTurn)
    ensures
        r.deep_view() == showing(ui.deep_view()),
{
    let r = SwitchTurn { ui, unended: Vec::new(), lines: Vec::new() };
    assert(r.deep_view() =~= showing(ui.deep_view()));
    r
}

/// A turn with nothing.
fn nothing() -> (r: SwitchTurn)
    ensures
        r.deep_view() == silent(),
{
    let ui: Vec<UiAction> = Vec::new();
    assert(ui.deep_view() =~= seq![]);
    show(ui)
}

/// A turn with a line for the standard error.
fn complain(style: Style, text: &str) -> (r: SwitchTurn)
    ensures
        r.deep_view() == complaint(seq![span(style, text@)]),
{
    let spans = vec![styled(style, text)];
    assert(spans.deep_view() =~= seq![span(style, text@)]);
    let mut r = nothing();
    let ghost before = r.lines.deep_view();
    let line = Line { stderr: true, spans };
    r.lines.push(line);
    proof {
        assert(r.lines.deep_view() =~= before.push(line.deep_view()));
        assert(r.deep_view() =~= complaint(seq![span(style, text@)]));
    }
    r
}

impl SwitchSession {
    /// What is known of the build.
    pub closed spec fn model(&self) -> SwitchModel {
        SwitchModel { stage: self.stage, log: self.logger.model() }
    }

    /// What every operation keeps.
    pub closed spec fn well_formed(&self) -> bool {
        self.logger.well_formed()
    }

    /// Starts to follow a build. `None` where the regex crate refuses one of the
    /// patterns.
    pub fn new() -> (r: Option<SwitchSession>)
        ensures
            r is Some <==> patterns_accepted(),
            r matches Some(s) ==> s.well_formed() && s.model() == (SwitchModel {
                stage: SwitchStage::Streaming,
                log: LogModel::idle(),
            }),
    {
        match LogProcessor::new() {
            Some(logger) => Some(SwitchSession { stage: SwitchStage::Streaming, logger }),
            None => None,
        }
    }

    /// What the session waits for.
    pub fn stage(&self) -> (r: SwitchStage)
        ensures
            r == self.model().stage,
    {
        self.stage
    }

    fn line(&mut self, line: &str) -> (r: SwitchTurn)
        requires
            old(self).well_formed(),
        ensures
            final(self).well_formed(),
            (final(self).model(), r.deep_view()) == switch_line(old(self).model(), line@),
    {
        let ghost before = self.model();
        if contains(line, COMPLETE) {
            self.stage = SwitchStage::Ended;
            let ui = self.logger.finish();
            show(ui)
        } else if contains(line, FAILED) {
            self.stage = SwitchStage::Ended;
            let ui = self.logger.abort();
            let mut r = show(ui);
            let ghost none = r.lines.deep_view();
            let spans = vec![
                plain("\n"),
                styled(Style::RedBold, "❌ Build failed. Check the logs above."),
            ];
            let ghost wanted = switch_line(before, line@).1;
            assert(spans.deep_view() =~= wanted.lines[0].spans);
            let complaint = Line { stderr: true, spans };
            r.lines.push(complaint);
            proof {
                assert(r.lines.deep_view() =~= none.push(complaint.deep_view()));
                assert(r.deep_view() =~= wanted);
            }
            r
        } else {
            let ui = self.logger.process(line);
            show(ui)
        }
    }

    /// Takes in an event.
    pub fn step(&mut self, event: SwitchEvent) -> (r: SwitchTurn)
        requires
            old(self).well_formed(),
        ensures
            final(self).well_formed(),
            (final(self).model(), r.deep_view()) == switched(old(self).model(), event.deep_view()),
    {
        let ghost before = self.model();
        match self.stage {
            SwitchStage::Streaming => match event {
                SwitchEvent::Interrupted => {
                    self.stage = SwitchStage::Cancelling;
                    let ui = self.logger.abort();
                    let unended = vec![
                        plain("\n"),
                        styled(Style::YellowBold, "Cancelling build..."),
                        plain(" "),
                    ];
                    let r = SwitchTurn { ui, unended, lines: Vec::new() };
                    proof {
                        let wanted = switched(before, event.deep_view()).1;
                        assert(unended.deep_view() =~= wanted.unended);
                        assert(r.deep_view() =~= wanted);
                    }
                    r
                },
                SwitchEvent::Line(line) => self.line(line.as_str()),
                SwitchEvent::Closed => {
                    self.stage = SwitchStage::Ended;
                    nothing()
                },
                _ => nothing(),
            },
            SwitchStage::Cancelling => match event {
                SwitchEvent::Cancelled(message) => {
                    self.stage = SwitchStage::Ended;
                    complain(Style::Dimmed, message.as_str())
                },
                SwitchEvent::NotCancelled(error) => {
                    self.stage = SwitchStage::Ended;
                    let mut text = "(cancel failed: ".to_string();
                    text.append(error.as_str());
                    text.append(")");
                    complain(Style::Red, text.as_str())
                },
                _ => nothing(),
            },
            SwitchStage::Ended => nothing(),
        }
    }
}

/// What is shown while the configuration is sent to the daemon.
pub fn upload_message() -> (r: Vec<Span>)
    ensures
        r.deep_view() == seq![
            span(Style::Plain, "🏔️  "@),
            span(Style::WhiteBold, "Uploading glacier configuration"@),
        ],
{
    let r = vec![plain("🏔️  "), styled(Style::WhiteBold, "Uploading glacier configuration")];
    assert(r.deep_view() =~= seq![
        span(Style::Plain, "🏔️  "@),
        span(Style::WhiteBold, "Uploading glacier configuration"@),
    ]);
    r
}

/// The line before the build of the system `name`.
pub open spec fn rebuilding(name: Seq<char>) -> LineView {
    out(
        seq![
            span(Style::Plain, "⚙️  "@),
            span(Style::Dimmed, "Rebuilding"@),
            span(Style::Plain, " "@),
            span(Style::Cyan, name),
            span(Style::Plain, "..."@),
        ],
    )
}

/// The line before the build of the system `name`.
pub fn rebuilding_line(name: &str) -> (r: Line)
    ensures
        r.deep_view() == rebuilding(name@),
{
    let spans = vec![
        plain("⚙️  "),
        styled(Style::Dimmed, "Rebuilding"),
        plain(" "),
        styled(Style::Cyan, name),
        plain("..."),
    ];
    assert(spans.deep_view() =~= rebuilding(name@).spans);
    out_text(spans)
}

/// The command that installs the system of a flake.
pub open spec fn nixos_install(target: Seq<char>) -> CommandView {
    cmd("nixos-install"@, seq!["--flake"@, target, "--verbose"@, "--show-trace"@])
}

/// The command that installs the system of a flake.
pub fn install_command(target: &str) -> (r: Command)
    ensures
        r.deep_view() == nixos_install(target@),
{
    let args = vec!["--flake", target, "--verbose", "--show-trace"];
    assert(args.deep_view() =~= seq!["--flake"@, target@, "--verbose"@, "--show-trace"@]);
    command("nixos-install", args)
}

/// The line before the installation.
pub open spec fn installing(target: Seq<char>) -> LineView {
    out(
        seq![
            span(Style::Plain, "\n❄️  "@),
            span(Style::Dimmed, "Installing NixOS for"@),
            span(Style::Plain, " "@),
            span(Style::CyanBold, target),
            span(Style::Plain, "..."@),
        ],
    )
}

/// The line before the installation.
pub fn installing_line(target: &str) -> (r: Line)
    ensures
        r.deep_view() == installing(target@),
{
    let spans = vec![
        plain("\n❄️  "),
        styled(Style::Dimmed, "Installing NixOS for"),
        plain(" "),
        styled(Style::CyanBold, target),
        plain("..."),
    ];
    assert(spans.deep_view() =~= installing(target@).spans);
    out_text(spans)
}

/// What is known of an installation.
#[verifier::ext_equal]
pub struct InstallLogModel {
    /// Whether a line said that it is finished: no further line is read.
    pub finished: bool,
    pub log: LogModel,
}

impl InstallLogModel {
    /// What holds between any two lines.
    pub open spec fn valid(self) -> bool {
        self.log.valid() && (self.finished ==> self.log == LogModel::idle())
    }
}

/// Whether a line says that the installation is finished.
pub open spec fn says_finished(line: Seq<char>) -> bool {
    holds(line, COMPLETE@) || holds(line, "installation finished"@)
}

/// Whether a line is taken in twice.
pub open spec fn taken_twice(line: Seq<char>) -> bool {
    holds(line, FAILED@) || holds(line, "error:"@)
}

/// What a line of the installation means: nothing once it is finished.
pub open spec fn install_line(m: InstallLogModel, line: Seq<char>) -> (
    InstallLogModel,
    Seq<UiView>,
) {
    if m.finished {
        (m, seq![])
    } else if says_finished(line) {
        (InstallLogModel { finished: true, log: LogModel::idle() }, finished(m.log))
    } else {
        let (log, ui) = logged(m.log, log_line(line));
        if taken_twice(line) {
            let (again, more) = logged(log, log_line(line));
            (InstallLogModel { log: again, ..m }, ui + more)
        } else {
            (InstallLogModel { log, ..m }, ui)
        }
    }
}

/// What the end of the installation means.
pub open spec fn install_exit(m: InstallLogModel, success: bool) -> (InstallLogModel, Seq<UiView>) {
    if !success {
        (InstallLogModel { log: LogModel::idle(), ..m }, aborted(m.log))
    } else if m.finished {
        (m, seq![])
    } else {
        (InstallLogModel { log: LogModel::idle(), ..m }, finished(m.log))
    }
}

/// Follows an installation.
pub struct InstallLog {
    finished: bool,
    logger: LogProcessor,
}

impl InstallLog {
    /// What is known of the installation.
    pub closed spec fn model(&self) -> InstallLogModel {
        InstallLogModel { finished: self.finished, log: self.logger.model() }
    }

    /// What every operation keeps.
    pub closed spec fn well_formed(&self) -> bool {
        self.logger.well_formed() && self.model().valid()
    }

    /// Starts to follow an installation. `None` where the regex crate refuses one
    /// of the patterns.
    pub fn new() -> (r: Option<InstallLog>)
        ensures
            r is Some <==> patterns_accepted(),
            r matches Some(s) ==> s.well_formed() && s.model() == (InstallLogModel {
                finished: false,
                log: LogModel::idle(),
            }),
    {
        match LogProcessor::new() {
            Some(logger) => Some(InstallLog { finished: false, logger }),
            None => None,
        }
    }

    /// Whether a line said that the installation is finished.
    pub fn finished(&self) -> (r: bool)
        ensures
            r == self.model().finished,
    {
        self.finished
    }

    /// Takes in a line.
    pub fn line(&mut self, line: &str) -> (r: Vec<UiAction>)
        requires
            old(self).well_formed(),
        ensures
            final(self).well_formed(),
            (final(self).model(), r.deep_view()) == install_line(old(self).model(), line@),
    {
        if self.finished {
            let ui: Vec<UiAction> = Vec::new();
            assert(ui.deep_view() =~= seq![]);
            ui
        } else if contains(line, COMPLETE) || contains(line, "installation finished") {
            self.finished = true;
            self.logger.finish()
        } else {
            let mut ui = self.logger.process(line);
            if contains(line, FAILED) || contains(line, "error:") {
                let ghost first = ui.deep_view();
                let mut more = self.logger.process(line);
                let ghost second = more.deep_view();
                ui.append(&mut more);
                assert(ui.deep_view() =~= first + second);
            }
            proof {
                lemma_well_formed(self.logger);
            }
            ui
        }
    }

    /// Takes in the end of the installation: says whether the system is installed,
    /// and what to show.
    pub fn exit(&mut self, success: bool) -> (r: (bool, Vec<UiAction>))
        requires
            old(self).well_formed(),
        ensures
            final(self).well_formed(),
            r.0 == success,
            (final(self).model(), r.1.deep_view()) == install_exit(old(self).model(), success),
    {
        if !success {
            (false, self.logger.abort())
        } else if self.finished {
            let ui: Vec<UiAction> = Vec::new();
            assert(ui.deep_view() =~= seq![]);
            (true, ui)
        } else {
            (true, self.logger.finish())
        }
    }
}

/// What every operation of a session keeps is enough for the laws.
pub proof fn lemma_session_well_formed(s: SwitchSession)
    requires
        s.well_formed(),
    ensures
        s.model().log.valid(),
{
    lemma_well_formed(s.logger);
}

/// What every operation of the log of an installation keeps is enough for the laws.
pub proof fn lemma_install_log_well_formed(s: InstallLog)
    requires
        s.well_formed(),
    ensures
        s.model().valid(),
{
}

/// Law: when an installation is over, no derivation is left as being built.
pub proof fn law_an_installation_leaves_nothing_running(m: InstallLogModel, success: bool)
    requires
        m.valid(),
    ensures
        install_exit(m, success).0.log == LogModel::idle(),
{
}

/// Law: the line that says that the installation is finished is the only thing that
/// makes it so, and leaves no derivation as being built. No later line changes
/// anything.
pub proof fn law_a_line_finishes_the_installation(m: InstallLogModel, line: Seq<char>)
    ensures
        install_line(m, line).0.finished <==> m.finished || says_finished(line),
        !m.finished && says_finished(line) ==> install_line(m, line).0.log == LogModel::idle(),
        m.finished ==> install_line(m, line) == (m, Seq::<UiView>::empty()),
{
}

/// Law: only the two reports of the daemon end a session by a line. Any other line goes
/// to the log, which shows it, and the session goes on.
pub proof fn law_only_a_report_ends_the_session(m: SwitchModel, line: Seq<char>)
    requires
        m.stage == SwitchStage::Streaming,
        !holds(line, "--- Switch Complete ---"@),
        !holds(line, "--- Switch Failed"@),
    ensures
        ({
            let (n, turn) = switched(m, SwitchEventView::Line(line));
            let (log, ui) = logged(m.log, log_line(line));
            &&& n.stage == SwitchStage::Streaming
            &&& n.log == log
            &&& turn.ui == ui
            &&& turn.unended.len() == 0
            &&& turn.lines.len() == 0
        }),
{
}

/// Law: a line that reports success ends the session with it; one that reports failure,
/// and not success, ends it with a complaint on the standard error.
pub proof fn law_a_report_ends_the_session(
    m: SwitchModel,
    before: Seq<char>,
    after: Seq<char>,
    failed: Seq<char>,
)
    requires
        m.stage == SwitchStage::Streaming,
        holds(failed, "--- Switch Failed"@),
        !holds(failed, "--- Switch Complete ---"@),
    ensures
        ({
            let complete = before + "--- Switch Complete ---"@ + after;
            let (n, turn) = switched(m, SwitchEventView::Line(complete));
            &&& n.stage == SwitchStage::Ended
            &&& n.log == LogModel::idle()
            &&& turn.ui == finished(m.log)
            &&& turn.unended.len() == 0
            &&& turn.lines.len() == 0
        }),
        ({
            let (n, turn) = switched(m, SwitchEventView::Line(failed));
            &&& n.stage == SwitchStage::Ended
            &&& n.log == LogModel::idle()
            &&& turn.ui == aborted(m.log)
            &&& turn.unended.len() == 0
            &&& turn.lines == seq![
                LineView {
                    stderr: true,
                    spans: seq![
                        span(Style::Plain, "\n"@),
                        span(Style::RedBold, "❌ Build failed. Check the logs above."@),
                    ],
                },
            ]
        }),
{
    law_found_where_it_stands(before, "--- Switch Complete ---"@, after);
}

/// Law: an interrupt marks what is being built as failed and asks the daemon to cancel;
/// its answer, or that there is none, is told, and ends the session.
pub proof fn law_an_interrupt_cancels(m: SwitchModel, message: Seq<char>, error: Seq<char>)
    requires
        m.stage == SwitchStage::Streaming,
    ensures
        ({
            let (n, turn) = switched(m, SwitchEventView::Interrupted);
            let (told, answer) = switched(n, SwitchEventView::Cancelled(message));
            let (lost, failure) = switched(n, SwitchEventView::NotCancelled(error));
            &&& n.stage == SwitchStage::Cancelling
            &&& n.log == LogModel::idle()
            &&& turn.ui == aborted(m.log)
            &&& turn.unended == seq![
                span(Style::Plain, "\n"@),
                span(Style::YellowBold, "Cancelling build..."@),
                span(Style::Plain, " "@),
            ]
            &&& turn.lines.len() == 0
            &&& told.stage == SwitchStage::Ended
            &&& answer.ui.len() == 0
            &&& answer.lines == seq![
                LineView { stderr: true, spans: seq![span(Style::Dimmed, message)] },
            ]
            &&& lost.stage == SwitchStage::Ended
            &&& failure.ui.len() == 0
            &&& failure.lines == seq![
                LineView {
                    stderr: true,
                    spans: seq![span(Style::Red, "(cancel failed: "@ + error + ")"@)],
                },
            ]
        }),
{
}

/// Law: a line that cannot be read is passed over, and the end of the lines ends the
/// session without a word. While a cancellation is awaited, lines mean nothing.
pub proof fn law_what_passes_in_silence(m: SwitchModel, waiting: SwitchModel, line: Seq<char>)
    requires
        m.stage == SwitchStage::Streaming,
        waiting.stage == SwitchStage::Cancelling,
    ensures
        switched(m, SwitchEventView::Unreadable) == (m, silent()),
        switched(m, SwitchEventView::Closed).0.stage == SwitchStage::Ended,
        switched(m, SwitchEventView::Closed).1 == silent(),
        switched(waiting, SwitchEventView::Line(line)) == (waiting, silent()),
        silent().ui.len() == 0 && silent().unended.len() == 0 && silent().lines.len() == 0,
{
}

/// Law: what the log makes of a line of an installation: one that says that it is finished
/// ends it, one that tells an error is taken in twice, and any other once.
pub proof fn law_how_a_line_of_an_installation_is_taken(m: InstallLogModel, line: Seq<char>)
    requires
        !m.finished,
    ensures
        ({
            let (n, ui) = install_line(m, line);
            let done = holds(line, "--- Switch Complete ---"@) || holds(
                line,
                "installation finished"@,
            );
            let twice = holds(line, "--- Switch Failed"@) || holds(line, "error:"@);
            let (once, shown) = logged(m.log, log_line(line));
            let (again, more) = logged(once, log_line(line));
            &&& done ==> n.finished && n.log == LogModel::idle() && ui == finished(m.log)
            &&& !done ==> !n.finished
            &&& !done && twice ==> n.log == again && ui == shown + more
            &&& !done && !twice ==> n.log == once && ui == shown
        }),
{
}

/// Law: an installation that failed marks what is being built as failed; one that
/// succeeded marks it as done, unless a line has said so before.
pub proof fn law_how_an_installation_ends(m: InstallLogModel)
    ensures
        install_exit(m, false).1 == aborted(m.log),
        !m.finished ==> install_exit(m, true).1 == finished(m.log),
        m.finished ==> install_exit(m, true) == (m, Seq::<UiView>::empty()),
{
}

/// Law: the command that installs takes the flake as it is named.
pub proof fn law_what_installs(target: Seq<char>)
    ensures
        nixos_install(target).program == "nixos-install"@,
        nixos_install(target).args == seq!["--flake"@, target, "--verbose"@, "--show-trace"@],
        installing(target) == (LineView {
            stderr: false,
            spans: seq![
                span(Style::Plain, "\n❄️  "@),
                span(Style::Dimmed, "Installing NixOS for"@),
                span(Style::Plain, " "@),
                span(Style::CyanBold, target),
                span(Style::Plain, "..."@),
            ],
        }),
        rebuilding(target) == (LineView {
            stderr: false,
            spans: seq![
                span(Style::Plain, "⚙️  "@),
                span(Style::Dimmed, "Rebuilding"@),
                span(Style::Plain, " "@),
                span(Style::Cyan, target),
                span(Style::Plain, "..."@),
            ],
        }),
{
}

} // verus!
