//! Dialogues with the world: a flow asks for one thing at a time, and goes on
//! with the reply.

use vstd::prelude::*;

use crate::style::{plain, span, styled, Span, SpanView, Style};
use crate::system::{Command, CommandView, RunResult, RunView};

verus! {

/// A line to print.
#[derive(Debug)]
pub struct Line {
    /// Whether it goes to the standard error instead of the standard output.
    pub stderr: bool,
    pub spans: Vec<Span>,
}

/// The value of a `Line`.
#[verifier::ext_equal]
pub struct LineView {
    pub stderr: bool,
    pub spans: Seq<SpanView>,
}

impl DeepView for Line {
    type V = LineView;

    open spec fn deep_view(&self) -> LineView {
        LineView { stderr: self.stderr, spans: self.spans.deep_view() }
    }
}

/// How a flow ends.
#[derive(Debug)]
pub enum Outcome {
    /// All is done, or the user wants no more.
    Done,
    /// With this error.
    Failed(String),
    /// With the error that kept the last request from being met.
    Broken,
    /// With a message that was printed already: the process exits with status 1.
    Exit,
}

/// The value of an `Outcome`.
pub enum OutcomeView {
    Done,
    Failed(Seq<char>),
    Broken,
    Exit,
}

impl DeepView for Outcome {
    type V = OutcomeView;

    open spec fn deep_view(&self) -> OutcomeView {
        match self {
            Outcome::Done => OutcomeView::Done,
            Outcome::Failed(why) => OutcomeView::Failed(why@),
            Outcome::Broken => OutcomeView::Broken,
            Outcome::Exit => OutcomeView::Exit,
        }
    }
}

/// What a flow asks for.
#[derive(Debug)]
pub enum Request {
    /// Let the user choose an option. Reply: `Choice`.
    Select { prompt: String, options: Vec<String> },
    /// Let the user type a text. Reply: `Text`.
    Input { prompt: String, default: String },
    /// Let the user type a text that may be empty. Reply: `Secret` or `Failed`.
    Secret { prompt: String },
    /// Let the user say yes or no, with no as the default. Reply: `Confirmed` or
    /// `Failed`.
    Confirm { prompt: String },
    /// Run a command and read what it prints. Reply: `Output` or `Failed`.
    Capture(Command),
    /// Run a command under a spinner. Reply: `Ran`.
    Run { message: Vec<Span>, command: Command },
    /// Run a command, under a spinner where there is a message, however it ends,
    /// and wait. Reply: `Done`.
    Settle { message: Vec<Span>, command: Command, pause_ms: u64 },
    /// Create a directory and those above it. Reply: `Done` or `Failed`.
    CreateDir(String),
    /// Write a file. Reply: `Done` or `Failed`.
    WriteFile { path: String, contents: String },
    /// Read a file. Reply: `Contents` or `Failed`.
    ReadFile(String),
    /// See whether a path exists. Reply: `Exists`.
    Exists(String),
    /// Copy a file. Reply: `Done` or `Failed`.
    Copy { from: String, to: String },
    /// Remove a file, if that can be done. Reply: `Done`.
    Remove(String),
    /// Install the system. Reply: `Installed` or `Failed`.
    Install { target: String, dir: String },
    /// Run a command on the terminal, however it ends. Reply: `Done`.
    Launch(Command),
    /// Nothing more.
    End(Outcome),
}

/// The value of a `Request`.
pub enum RequestView {
    Select { prompt: Seq<char>, options: Seq<Seq<char>> },
    Input { prompt: Seq<char>, default: Seq<char> },
    Secret { prompt: Seq<char> },
    Confirm { prompt: Seq<char> },
    Capture(CommandView),
    Run { message: Seq<SpanView>, command: CommandView },
    Settle { message: Seq<SpanView>, command: CommandView, pause_ms: u64 },
    CreateDir(Seq<char>),
    WriteFile { path: Seq<char>, contents: Seq<char> },
    ReadFile(Seq<char>),
    Exists(Seq<char>),
    Copy { from: Seq<char>, to: Seq<char> },
    Remove(Seq<char>),
    Install { target: Seq<char>, dir: Seq<char> },
    Launch(CommandView),
    End(OutcomeView),
}

impl DeepView for Request {
    type V = RequestView;

    open spec fn deep_view(&self) -> RequestView {
        match self {
            Request::Select { prompt, options } => RequestView::Select {
                prompt: prompt@,
                options: options.deep_view(),
            },
            Request::Input { prompt, default } => RequestView::Input {
                prompt: prompt@,
                default: default@,
            },
            Request::Secret { prompt } => RequestView::Secret { prompt: prompt@ },
            Request::Confirm { prompt } => RequestView::Confirm { prompt: prompt@ },
            Request::Capture(command) => RequestView::Capture(command.deep_view()),
            Request::Run { message, command } => RequestView::Run {
                message: message.deep_view(),
                command: command.deep_view(),
            },
            Request::Settle { message, command, pause_ms } => RequestView::Settle {
                message: message.deep_view(),
                command: command.deep_view(),
                pause_ms: *pause_ms,
            },
            Request::CreateDir(path) => RequestView::CreateDir(path@),
            Request::WriteFile { path, contents } => RequestView::WriteFile {
                path: path@,
                contents: contents@,
            },
            Request::ReadFile(path) => RequestView::ReadFile(path@),
            Request::Exists(path) => RequestView::Exists(path@),
            Request::Copy { from, to } => RequestView::Copy { from: from@, to: to@ },
            Request::Remove(path) => RequestView::Remove(path@),
            Request::Install { target, dir } => RequestView::Install { target: target@, dir: dir@ },
            Request::Launch(command) => RequestView::Launch(command.deep_view()),
            Request::End(outcome) => RequestView::End(outcome.deep_view()),
        }
    }
}

/// The reply to a request.
#[derive(Debug)]
pub enum Reply {
    /// The option that was chosen; `None` where none could be.
    Choice(Option<usize>),
    /// The text that was typed; `None` where none could be.
    Text(Option<String>),
    Secret(String),
    Confirmed(bool),
    Output { success: bool, stdout: Vec<u8> },
    Ran(RunResult),
    Contents(String),
    Exists(bool),
    Installed(bool),
    Done,
    /// The request could not be met.
    Failed,
}

/// The value of a `Reply`.
pub enum ReplyView {
    Choice(Option<usize>),
    Text(Option<Seq<char>>),
    Secret(Seq<char>),
    Confirmed(bool),
    Output { success: bool, stdout: Seq<u8> },
    Ran(RunView),
    Contents(Seq<char>),
    Exists(bool),
    Installed(bool),
    Done,
    Failed,
}

impl DeepView for Reply {
    type V = ReplyView;

    open spec fn deep_view(&self) -> ReplyView {
        match self {
            Reply::Choice(i) => ReplyView::Choice(*i),
            Reply::Text(text) => ReplyView::Text(text.deep_view()),
            Reply::Secret(text) => ReplyView::Secret(text@),
            Reply::Confirmed(yes) => ReplyView::Confirmed(*yes),
            Reply::Output { success, stdout } => ReplyView::Output {
                success: *success,
                stdout: stdout@,
            },
            Reply::Ran(result) => ReplyView::Ran(result.deep_view()),
            Reply::Contents(text) => ReplyView::Contents(text@),
            Reply::Exists(yes) => ReplyView::Exists(*yes),
            Reply::Installed(yes) => ReplyView::Installed(*yes),
            Reply::Done => ReplyView::Done,
            Reply::Failed => ReplyView::Failed,
        }
    }
}

/// What a flow does next: print some lines, then ask for something.
#[derive(Debug)]
pub struct Turn {
    pub lines: Vec<Line>,
    pub request: Request,
}

/// The value of a `Turn`.
#[verifier::ext_equal]
pub struct TurnView {
    pub lines: Seq<LineView>,
    pub request: RequestView,
}

impl DeepView for Turn {
    type V = TurnView;

    open spec fn deep_view(&self) -> TurnView {
        TurnView { lines: self.lines.deep_view(), request: self.request.deep_view() }
    }
}

/// A turn without lines.
pub open spec fn asking(request: RequestView) -> TurnView {
    TurnView { lines: seq![], request }
}

/// The position that the user chose among `n` options: the first one where none
/// could be chosen.
pub open spec fn choice(n: nat, reply: ReplyView) -> Option<int> {
    match reply {
        ReplyView::Choice(Some(i)) => if i < n {
            Some(i as int)
        } else {
            None
        },
        ReplyView::Choice(None) => if 0 < n {
            Some(0)
        } else {
            None
        },
        _ => None,
    }
}

/// The option that the user chose.
pub open spec fn picked(options: Seq<Seq<char>>, reply: ReplyView) -> Option<Seq<char>> {
    match choice(options.len(), reply) {
        Some(i) => Some(options[i]),
        None => None,
    }
}

/// The text that the user typed, or the default where none could be.
pub open spec fn typed(default: Seq<char>, reply: ReplyView) -> Option<Seq<char>> {
    match reply {
        ReplyView::Text(Some(text)) => Some(text),
        ReplyView::Text(None) => Some(default),
        _ => None,
    }
}

/// The position that the user chose among `n` options.
pub fn choose_index(n: usize, reply: &Reply) -> (r: Option<usize>)
    ensures
        match r {
            Some(i) => choice(n as nat, reply.deep_view()) == Some(i as int),
            None => choice(n as nat, reply.deep_view()) is None,
        },
{
    match reply {
        Reply::Choice(Some(i)) => if *i < n {
            Some(*i)
        } else {
            None
        },
        Reply::Choice(None) => if 0 < n {
            Some(0)
        } else {
            None
        },
        _ => None,
    }
}

/// The option that the user chose; `None` where the reply is no choice among
/// them.
pub fn pick(options: &Vec<String>, reply: &Reply) -> (r: Option<String>)
    ensures
        r.deep_view() == picked(options.deep_view(), reply.deep_view()),
{
    match choose_index(options.len(), reply) {
        Some(i) => Some(options[i].clone()),
        None => None,
    }
}

/// The text that the user typed, or the default; `None` where the reply is no
/// text.
pub fn ask(default: &str, reply: Reply) -> (r: Option<String>)
    ensures
        r.deep_view() == typed(default@, reply.deep_view()),
{
    match reply {
        Reply::Text(Some(text)) => Some(text),
        Reply::Text(None) => Some(default.to_string()),
        _ => None,
    }
}

/// A turn without lines.
pub fn ask_for(request: Request) -> (r: Turn)
    ensures
        r.deep_view() == asking(request.deep_view()),
{
    let lines: Vec<Line> = Vec::new();
    assert(lines.deep_view() =~= seq![]);
    Turn { lines, request }
}

/// A line of the standard output.
pub open spec fn out(spans: Seq<SpanView>) -> LineView {
    LineView { stderr: false, spans }
}

/// The line that says that a step is done.
pub open spec fn done_line(text: Seq<char>) -> LineView {
    out(
        seq![
            span(Style::Plain, "  "@),
            span(Style::Green, "✔"@),
            span(Style::Plain, " "@),
            span(Style::Dimmed, text),
        ],
    )
}

/// The line that opens a part of the flow, with an empty one before it.
pub open spec fn heading(text: Seq<char>) -> LineView {
    out(seq![span(Style::Plain, "\n"@), span(Style::Dimmed, text)])
}

/// The line that says what is going on.
pub open spec fn arrow_line(text: Seq<char>) -> LineView {
    out(
        seq![
            span(Style::Plain, "  "@),
            span(Style::Cyan, "→"@),
            span(Style::Plain, " "@),
            span(Style::Dimmed, text),
        ],
    )
}

/// A line of the standard output.
pub fn out_text(spans: Vec<Span>) -> (r: Line)
    ensures
        r.deep_view() == out(spans.deep_view()),
{
    Line { stderr: false, spans }
}

/// The line that says that a step is done.
pub fn done_text(text: &str) -> (r: Line)
    ensures
        r.deep_view() == done_line(text@),
{
    let spans = vec![plain("  "), styled(Style::Green, "✔"), plain(" "), styled(Style::Dimmed, text)];
    assert(spans.deep_view() =~= done_line(text@).spans);
    out_text(spans)
}

/// The line that opens a part of the flow.
pub fn heading_text(text: &str) -> (r: Line)
    ensures
        r.deep_view() == heading(text@),
{
    let spans = vec![plain("\n"), styled(Style::Dimmed, text)];
    assert(spans.deep_view() =~= heading(text@).spans);
    out_text(spans)
}

/// The line that says what is going on.
pub fn arrow_text(text: &str) -> (r: Line)
    ensures
        r.deep_view() == arrow_line(text@),
{
    let spans = vec![plain("  "), styled(Style::Cyan, "→"), plain(" "), styled(Style::Dimmed, text)];
    assert(spans.deep_view() =~= arrow_line(text@).spans);
    out_text(spans)
}

/// Law: the user gets the option that was chosen, or the first where none could be; an
/// option that is not there cannot be chosen.
pub proof fn law_the_choice_of_the_user(options: Seq<Seq<char>>, i: usize)
    ensures
        i < options.len() ==> picked(options, ReplyView::Choice(Some(i))) == Some(
            options[i as int],
        ),
        i >= options.len() ==> picked(options, ReplyView::Choice(Some(i))) is None,
        options.len() > 0 ==> picked(options, ReplyView::Choice(None)) == Some(options[0]),
        options.len() == 0 ==> picked(options, ReplyView::Choice(None)) is None,
        i < options.len() ==> choice(options.len(), ReplyView::Choice(Some(i))) == Some(i as int),
{
}

/// Law: the user gets what was typed, whatever the default is, and the default where
/// nothing could be typed.
pub proof fn law_the_words_of_the_user(default: Seq<char>, text: Seq<char>, reply: ReplyView)
    ensures
        typed(default, ReplyView::Text(Some(text))) == Some(text),
        typed(default, ReplyView::Text(None)) == Some(default),
        !(reply is Text) ==> typed(default, reply) is None,
        !(reply is Choice) ==> picked(seq![text], reply) is None,
{
}

/// Law: the lines of a flow, around what they tell.
pub proof fn law_the_lines_of_a_flow(text: Seq<char>)
    ensures
        done_line(text) == (LineView {
            stderr: false,
            spans: seq![
                span(Style::Plain, "  "@),
                span(Style::Green, "✔"@),
                span(Style::Plain, " "@),
                span(Style::Dimmed, text),
            ],
        }),
        heading(text) == (LineView {
            stderr: false,
            spans: seq![span(Style::Plain, "\n"@), span(Style::Dimmed, text)],
        }),
        arrow_line(text) == (LineView {
            stderr: false,
            spans: seq![
                span(Style::Plain, "  "@),
                span(Style::Cyan, "→"@),
                span(Style::Plain, " "@),
                span(Style::Dimmed, text),
            ],
        }),
{
}

} // verus!
