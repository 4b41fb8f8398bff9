//! Plans: commands to run one after the other.

use vstd::prelude::*;

use crate::flow::{Reply, ReplyView, Request, RequestView};
use crate::style::{copy_spans, plain, span, styled, Span, SpanView, Style};
use crate::system::{
    cmd, command, copy_command, run_error, run_outcome, Command, CommandView, RunResult,
    RunView,
};
use crate::text::{lossy, trimmed, utf8_is_read};

verus! {

/// A step of a plan.
#[derive(Debug)]
pub enum PlanStep {
    /// Run a command under a spinner with this message. Where it fails, the run
    /// ends with `failure` and the reason.
    Run { message: Vec<Span>, command: Command, failure: String },
    /// Run a command, however it ends, and wait.
    Settle { command: Command, pause_ms: u64 },
}

/// The value of a `PlanStep`.
pub enum StepView {
    Run { message: Seq<SpanView>, command: CommandView, failure: Seq<char> },
    Settle { command: CommandView, pause_ms: u64 },
}

impl DeepView for PlanStep {
    type V = StepView;

    open spec fn deep_view(&self) -> StepView {
        match self {
            PlanStep::Run { message, command, failure } => StepView::Run {
                message: message.deep_view(),
                command: command.deep_view(),
                failure: failure@,
            },
            PlanStep::Settle { command, pause_ms } => StepView::Settle {
                command: command.deep_view(),
                pause_ms: *pause_ms,
            },
        }
    }
}

/// A step that runs a command.
pub open spec fn run(
    message: Seq<SpanView>,
    program: Seq<char>,
    args: Seq<Seq<char>>,
    failure: Seq<char>,
) -> StepView {
    StepView::Run { message, command: cmd(program, args), failure }
}

/// A message of one plain span.
pub open spec fn note(text: Seq<char>) -> Seq<SpanView> {
    seq![span(Style::Plain, text)]
}

/// A message with a name in cyan between two plain spans.
pub open spec fn note_about(before: Seq<char>, name: Seq<char>, after: Seq<char>) -> Seq<SpanView> {
    seq![span(Style::Plain, before), span(Style::Cyan, name), span(Style::Plain, after)]
}

/// The request that carries out a step.
pub open spec fn step_request(step: StepView) -> RequestView {
    match step {
        StepView::Run { message, command, failure } => RequestView::Run { message, command },
        StepView::Settle { command, pause_ms } => RequestView::Settle {
            message: seq![],
            command,
            pause_ms,
        },
    }
}

/// What a reply means for the plan.
pub enum VerdictView {
    /// The next step is due.
    Next,
    /// The plan has failed with this error.
    Failed(Seq<char>),
    /// The reply is none to this step.
    Broken,
}

/// What the reply to a step means for the plan.
pub open spec fn verdict(step: StepView, reply: ReplyView) -> VerdictView {
    match step {
        StepView::Run { message, command, failure } => match reply {
            ReplyView::Ran(result) => match run_error(command.program, result) {
                Some(why) => VerdictView::Failed(failure + ": "@ + why),
                None => VerdictView::Next,
            },
            _ => VerdictView::Broken,
        },
        StepView::Settle { command, pause_ms } => VerdictView::Next,
    }
}

/// What a reply means for the plan.
#[derive(Debug)]
pub enum Verdict {
    /// The next step is due.
    Next,
    /// The plan has failed with this error.
    Failed(String),
    /// The reply is none to this step.
    Broken,
}

impl DeepView for Verdict {
    type V = VerdictView;

    open spec fn deep_view(&self) -> VerdictView {
        match self {
            Verdict::Next => VerdictView::Next,
            Verdict::Failed(why) => VerdictView::Failed(why@),
            Verdict::Broken => VerdictView::Broken,
        }
    }
}

/// A step that runs a command.
pub fn run_step(message: Vec<Span>, program: &str, args: Vec<&str>, failure: &str) -> (r: PlanStep)
    ensures
        r.deep_view() == run(message.deep_view(), program@, args.deep_view(), failure@),
{
    PlanStep::Run { message, command: command(program, args), failure: failure.to_string() }
}

/// A message of one plain span.
pub fn note_text(text: &str) -> (r: Vec<Span>)
    ensures
        r.deep_view() == note(text@),
{
    let r = vec![plain(text)];
    assert(r.deep_view() =~= note(text@));
    r
}

/// A message with a name in cyan between two plain spans.
pub fn note_about_text(before: &str, name: &str, after: &str) -> (r: Vec<Span>)
    ensures
        r.deep_view() == note_about(before@, name@, after@),
{
    let r = vec![plain(before), styled(Style::Cyan, name), plain(after)];
    assert(r.deep_view() =~= note_about(before@, name@, after@));
    r
}

/// The request that carries out a step.
pub fn request_for(step: &PlanStep) -> (r: Request)
    ensures
        r.deep_view() == step_request(step.deep_view()),
{
    match step {
        PlanStep::Run { message, command, failure: _ } => Request::Run {
            message: copy_spans(message),
            command: copy_command(command),
        },
        PlanStep::Settle { command, pause_ms } => {
            let message: Vec<Span> = Vec::new();
            assert(message.deep_view() =~= seq![]);
            Request::Settle { message, command: copy_command(command), pause_ms: *pause_ms }
        },
    }
}

/// What the reply to a step means for the plan.
pub fn judge(step: &PlanStep, reply: &Reply) -> (r: Verdict)
    ensures
        r.deep_view() == verdict(step.deep_view(), reply.deep_view()),
        match (step, reply) {
            (
                PlanStep::Run { message, command, failure },
                Reply::Ran(RunResult::Exited { success: false, stderr }),
            ) => utf8_is_read(stderr@),
            _ => true,
        },
{
    match step {
        PlanStep::Run { message: _, command, failure } => match reply {
            Reply::Ran(result) => match run_outcome(command.program.as_str(), result) {
                Ok(_) => Verdict::Next,
                Err(why) => {
                    let mut s = failure.clone();
                    s.append(": ");
                    s.append(why.as_str());
                    Verdict::Failed(s)
                },
            },
            _ => Verdict::Broken,
        },
        PlanStep::Settle { command: _, pause_ms: _ } => Verdict::Next,
    }
}

/// Law: a step asks for its own command, under its own message.
pub proof fn law_a_step_asks_for_its_command(
    message: Seq<SpanView>,
    command: CommandView,
    failure: Seq<char>,
    pause_ms: u64,
)
    ensures
        step_request(StepView::Run { message, command, failure }) == (RequestView::Run {
            message,
            command,
        }),
        step_request(StepView::Settle { command, pause_ms }) == (RequestView::Settle {
            message: seq![],
            command,
            pause_ms,
        }),
{
}

/// Law: a plan goes on after a command that succeeds, and fails with what the step is
/// and why after any other. After a pause it goes on, however the command ended.
pub proof fn law_what_stops_a_plan(
    message: Seq<SpanView>,
    command: CommandView,
    failure: Seq<char>,
    stderr: Seq<u8>,
    why: Seq<char>,
    pause_ms: u64,
    reply: ReplyView,
)
    ensures
        ({
            let step = StepView::Run { message, command, failure };
            &&& verdict(step, ReplyView::Ran(RunView::Exited { success: true, stderr }))
                == VerdictView::Next
            &&& verdict(step, ReplyView::Ran(RunView::Exited { success: false, stderr }))
                == VerdictView::Failed(failure + ": "@ + trimmed(lossy(stderr)))
            &&& verdict(step, ReplyView::Ran(RunView::NotStarted(why))) == VerdictView::Failed(
                failure + ": "@ + ("failed to run "@ + command.program + ": "@ + why),
            )
            &&& !(reply is Ran) ==> verdict(step, reply) == VerdictView::Broken
            &&& verdict(StepView::Settle { command, pause_ms }, reply) == VerdictView::Next
        }),
{
}

} // verus!
