//! Setting up a configuration in a directory that holds none.

use vstd::prelude::*;

use crate::config::{
    configuration_file, configuration_slots, flake_file, flake_slots, home_file, home_slots,
    CONFIGURATION_TEMPLATE, FLAKE_TEMPLATE, HOME_TEMPLATE,
};
use crate::flow::{
    ask_for, asking, out, out_text, Line, LineView, Outcome, OutcomeView, Reply, ReplyView,
    Request, RequestView, Turn, TurnView,
};
use crate::style::{plain, span, styled, Style};
use crate::survey::{
    answer, answers_of, name_answers, put_question, question_request, questions, take_answer,
};
use crate::template::filled;

verus! {

/// The file of the flake.
pub const FLAKE: &'static str = "flake.nix";

/// The file of the configuration of the system.
pub const CONFIGURATION: &'static str = "configuration.nix";

/// The file of the configuration of the home directory.
pub const HOME: &'static str = "home.nix";

/// What the flow waits for.
#[derive(Clone, Copy, Debug, PartialEq, Eq, Structural)]
pub enum Stage {
    FlakeExists,
    ConfigurationExists,
    HomeExists,
    Asking,
    WriteFlake,
    WriteConfiguration,
    WriteHome,
    Ended,
}

/// What the flow knows.
#[verifier::ext_equal]
pub struct InitModel {
    pub stage: Stage,
    /// The answers so far.
    pub answers: Seq<Seq<char>>,
}

impl InitModel {
    /// The model with another stage.
    pub open spec fn to(self, stage: Stage) -> InitModel {
        InitModel { stage, ..self }
    }

    /// What holds between any two steps.
    pub open spec fn valid(self) -> bool {
        match self.stage {
            Stage::Asking => self.answers.len() < questions().len(),
            Stage::WriteFlake | Stage::WriteConfiguration | Stage::WriteHome => self.answers.len()
                == questions().len(),
            _ => true,
        }
    }
}

/// The first turn: see whether there is a flake.
pub open spec fn opening() -> (InitModel, TurnView) {
    (
        InitModel { stage: Stage::FlakeExists, answers: seq![] },
        asking(RequestView::Exists(FLAKE@)),
    )
}

/// The end of the flow.
pub open spec fn end(m: InitModel, lines: Seq<LineView>, outcome: OutcomeView) -> (
    InitModel,
    TurnView,
) {
    (m.to(Stage::Ended), TurnView { lines, request: RequestView::End(outcome) })
}

/// The end, with the error that kept the last request from being met.
pub open spec fn broken(m: InitModel) -> (InitModel, TurnView) {
    end(m, seq![], OutcomeView::Broken)
}

/// The end, since there is such a file already.
pub open spec fn occupied(m: InitModel, file: Seq<char>) -> (InitModel, TurnView) {
    end(
        m,
        seq![
            LineView {
                stderr: true,
                spans: seq![span(Style::RedBold, file + " already exists in this directory."@)],
            },
        ],
        OutcomeView::Exit,
    )
}

/// The line before the questions.
pub open spec fn banner() -> LineView {
    out(
        seq![
            span(Style::Plain, "🏔️  "@),
            span(Style::BrightWhiteBold, "Setting up your Glacier configuration"@),
            span(Style::Plain, "\n"@),
        ],
    )
}

/// Put the question that is due, with these lines before it.
pub open spec fn put(m: InitModel, lines: Seq<LineView>) -> (InitModel, TurnView) {
    (
        m.to(Stage::Asking),
        TurnView {
            lines,
            request: question_request(questions()[m.answers.len() as int]),
        },
    )
}

/// Write one of the files.
pub open spec fn write(m: InitModel, stage: Stage, path: Seq<char>, contents: Seq<char>) -> (
    InitModel,
    TurnView,
) {
    (m.to(stage), asking(RequestView::WriteFile { path, contents }))
}

/// A question is answered: put the next one, or write the flake.
pub open spec fn after_answer(m: InitModel, text: Seq<char>) -> (InitModel, TurnView) {
    let n = InitModel { answers: m.answers.push(text), ..m };
    if n.answers.len() < questions().len() {
        put(n, seq![])
    } else {
        write(
            n,
            Stage::WriteFlake,
            FLAKE@,
            filled(FLAKE_TEMPLATE@, flake_slots(answers_of(n.answers))),
        )
    }
}

/// The lines that say how to go on.
pub open spec fn closing(host: Seq<char>) -> Seq<LineView> {
    seq![
        out(
            seq![
                span(Style::Plain, "\n✨ "@),
                span(Style::BrightWhiteBold, "Successfully created a Glacier flake."@),
            ],
        ),
        out(
            seq![
                span(Style::Plain, "   Use "@),
                span(Style::CyanBold, "sudo glacierctl switch "@ + host),
                span(Style::Plain, " to switch to your new config."@),
            ],
        ),
    ]
}

/// What the flow does next, given the reply to its last request.
pub open spec fn advance(m: InitModel, reply: ReplyView) -> (InitModel, TurnView) {
    match (m.stage, reply) {
        (Stage::FlakeExists, ReplyView::Exists(true)) => occupied(m, FLAKE@),
        (Stage::FlakeExists, ReplyView::Exists(false)) => (
            m.to(Stage::ConfigurationExists),
            asking(RequestView::Exists(CONFIGURATION@)),
        ),
        (Stage::ConfigurationExists, ReplyView::Exists(true)) => occupied(m, CONFIGURATION@),
        (Stage::ConfigurationExists, ReplyView::Exists(false)) => (
            m.to(Stage::HomeExists),
            asking(RequestView::Exists(HOME@)),
        ),
        (Stage::HomeExists, ReplyView::Exists(true)) => occupied(m, HOME@),
        (Stage::HomeExists, ReplyView::Exists(false)) => put(
            InitModel { answers: seq![], ..m },
            seq![banner()],
        ),
        (Stage::Asking, _) => match answer(questions()[m.answers.len() as int], reply) {
            Some(text) => after_answer(m, text),
            None => broken(m),
        },
        (Stage::WriteFlake, ReplyView::Done) => write(
            m,
            Stage::WriteConfiguration,
            CONFIGURATION@,
            filled(CONFIGURATION_TEMPLATE@, configuration_slots(answers_of(m.answers))),
        ),
        (Stage::WriteConfiguration, ReplyView::Done) => write(
            m,
            Stage::WriteHome,
            HOME@,
            filled(HOME_TEMPLATE@, home_slots(answers_of(m.answers))),
        ),
        (Stage::WriteHome, ReplyView::Done) => end(
            m,
            closing(answers_of(m.answers).system_name),
            OutcomeView::Done,
        ),
        _ => broken(m),
    }
}

/// The flow that sets up a configuration.
pub struct Init {
    stage: Stage,
    answers: Vec<String>,
}

impl Init {
    /// What the flow knows.
    pub closed spec fn model(&self) -> InitModel {
        InitModel { stage: self.stage, answers: self.answers.deep_view() }
    }

    /// A flow, and its first turn.
    pub fn new() -> (r: (Init, Turn))
        ensures
            (r.0.model(), r.1.deep_view()) == opening(),
            r.0.model().valid(),
    {
        let init = Init { stage: Stage::FlakeExists, answers: Vec::new() };
        assert(init.model() =~= opening().0);
        (init, ask_for(Request::Exists(FLAKE.to_string())))
    }

    fn end(&mut self, lines: Vec<Line>, outcome: Outcome) -> (r: Turn)
        ensures
            (final(self).model(), r.deep_view()) == end(
                old(self).model(),
                lines.deep_view(),
                outcome.deep_view(),
            ),
    {
        self.stage = Stage::Ended;
        Turn { lines, request: Request::End(outcome) }
    }

    fn broken(&mut self) -> (r: Turn)
        ensures
            (final(self).model(), r.deep_view()) == broken(old(self).model()),
    {
        let lines: Vec<Line> = Vec::new();
        assert(lines.deep_view() =~= seq![]);
        self.end(lines, Outcome::Broken)
    }

    fn occupied(&mut self, file: &str) -> (r: Turn)
        ensures
            (final(self).model(), r.deep_view()) == occupied(old(self).model(), file@),
    {
        let ghost wanted = occupied(self.model(), file@).1.lines;
        let mut text = file.to_string();
        text.append(" already exists in this directory.");
        let spans = vec![styled(Style::RedBold, text.as_str())];
        assert(spans.deep_view() =~= wanted[0].spans);
        let lines = vec![Line { stderr: true, spans }];
        assert(lines.deep_view() =~= wanted);
        self.end(lines, Outcome::Exit)
    }

    fn put(&mut self, lines: Vec<Line>) -> (r: Turn)
        requires
            old(self).model().answers.len() < questions().len(),
        ensures
            (final(self).model(), r.deep_view()) == put(old(self).model(), lines.deep_view()),
    {
        self.stage = Stage::Asking;
        Turn { lines, request: put_question(self.answers.len()) }
    }

    fn start(&mut self) -> (r: Turn)
        ensures
            (final(self).model(), r.deep_view()) == put(
                InitModel { answers: seq![], ..old(self).model() },
                seq![banner()],
            ),
    {
        let spans = vec![
            plain("🏔️  "),
            styled(Style::BrightWhiteBold, "Setting up your Glacier configuration"),
            plain("\n"),
        ];
        assert(spans.deep_view() =~= banner().spans);
        let lines = vec![out_text(spans)];
        assert(lines.deep_view() =~= seq![banner()]);
        self.answers = Vec::new();
        assert(self.answers.deep_view() =~= seq![]);
        self.put(lines)
    }

    fn write(&mut self, stage: Stage, path: &str, contents: String) -> (r: Turn)
        ensures
            (final(self).model(), r.deep_view()) == write(
                old(self).model(),
                stage,
                path@,
                contents@,
            ),
    {
        self.stage = stage;
        ask_for(Request::WriteFile { path: path.to_string(), contents })
    }

    fn after_answer(&mut self, text: String) -> (r: Turn)
        requires
            old(self).model().answers.len() < questions().len(),
        ensures
            (final(self).model(), r.deep_view()) == after_answer(old(self).model(), text@),
    {
        let ghost before = self.model();
        self.answers.push(text);
        assert(self.model().answers =~= before.answers.push(text@));
        if self.answers.len() < 13 {
            let lines: Vec<Line> = Vec::new();
            assert(lines.deep_view() =~= seq![]);
            self.put(lines)
        } else {
            let contents = flake_file(&name_answers(&self.answers));
            self.write(Stage::WriteFlake, FLAKE, contents)
        }
    }

    fn close(&mut self) -> (r: Turn)
        requires
            old(self).model().answers.len() == questions().len(),
        ensures
            (final(self).model(), r.deep_view()) == end(
                old(self).model(),
                closing(answers_of(old(self).model().answers).system_name),
                OutcomeView::Done,
            ),
    {
        let host = name_answers(&self.answers).system_name;
        let first = vec![
            plain("\n✨ "),
            styled(Style::BrightWhiteBold, "Successfully created a Glacier flake."),
        ];
        let mut invocation = "sudo glacierctl switch ".to_string();
        invocation.append(host.as_str());
        let second = vec![
            plain("   Use "),
            styled(Style::CyanBold, invocation.as_str()),
            plain(" to switch to your new config."),
        ];
        assert(first.deep_view() =~= closing(host@)[0].spans);
        assert(second.deep_view() =~= closing(host@)[1].spans);
        let lines = vec![out_text(first), out_text(second)];
        assert(lines.deep_view() =~= closing(host@));
        self.end(lines, Outcome::Done)
    }

    /// Goes on with the reply to the last request.
    pub fn step(&mut self, reply: Reply) -> (r: Turn)
        requires
            old(self).model().valid(),
        ensures
            (final(self).model(), r.deep_view()) == advance(old(self).model(), reply.deep_view()),
            final(self).model().valid(),
    {
        match self.stage {
            Stage::FlakeExists => match reply {
                Reply::Exists(true) => self.occupied(FLAKE),
                Reply::Exists(false) => {
                    self.stage = Stage::ConfigurationExists;
                    ask_for(Request::Exists(CONFIGURATION.to_string()))
                },
                _ => self.broken(),
            },
            Stage::ConfigurationExists => match reply {
                Reply::Exists(true) => self.occupied(CONFIGURATION),
                Reply::Exists(false) => {
                    self.stage = Stage::HomeExists;
                    ask_for(Request::Exists(HOME.to_string()))
                },
                _ => self.broken(),
            },
            Stage::HomeExists => match reply {
                Reply::Exists(true) => self.occupied(HOME),
                Reply::Exists(false) => self.start(),
                _ => self.broken(),
            },
            Stage::Asking => match take_answer(self.answers.len(), reply) {
                Some(text) => self.after_answer(text),
                None => self.broken(),
            },
            Stage::WriteFlake => match reply {
                Reply::Done => {
                    let contents = configuration_file(&name_answers(&self.answers));
                    self.write(Stage::WriteConfiguration, CONFIGURATION, contents)
                },
                _ => self.broken(),
            },
            Stage::WriteConfiguration => match reply {
                Reply::Done => {
                    let contents = home_file(&name_answers(&self.answers));
                    self.write(Stage::WriteHome, HOME, contents)
                },
                _ => self.broken(),
            },
            Stage::WriteHome => match reply {
                Reply::Done => self.close(),
                _ => self.broken(),
            },
            Stage::Ended => self.broken(),
        }
    }
}

/// What the flow knows after these replies.
pub open spec fn model_after(replies: Seq<ReplyView>) -> InitModel
    decreases replies.len(),
{
    if replies.len() == 0 {
        opening().0
    } else {
        advance(model_after(replies.drop_last()), replies.last()).0
    }
}

/// What the flow does after these replies.
pub open spec fn turn_after(replies: Seq<ReplyView>) -> TurnView {
    if replies.len() == 0 {
        opening().1
    } else {
        advance(model_after(replies.drop_last()), replies.last()).1
    }
}

/// Whether reply `k` said that there is no file at `path`.
pub open spec fn found_missing(replies: Seq<ReplyView>, k: int, path: Seq<char>) -> bool {
    &&& 0 <= k < replies.len()
    &&& turn_after(replies.take(k)).request == RequestView::Exists(path)
    &&& replies[k] == ReplyView::Exists(false)
}

/// Law: nothing is overwritten. Before any file is written, each of the three was
/// found not to exist, and no other is written.
pub proof fn law_nothing_is_overwritten(replies: Seq<ReplyView>)
    requires
        turn_after(replies).request is WriteFile,
    ensures
        found_missing(replies, 0, FLAKE@),
        found_missing(replies, 1, CONFIGURATION@),
        found_missing(replies, 2, HOME@),
        ({
            let path = turn_after(replies).request->WriteFile_path;
            path == FLAKE@ || path == CONFIGURATION@ || path == HOME@
        }),
{
    lemma_checked(replies);
    assert(replies.len() > 0);
    assert(writing(model_after(replies).stage));
}

/// Law: where one of the files exists, the flow ends and says which, and nothing
/// is written.
pub proof fn law_an_existing_file_ends_it(m: InitModel)
    requires
        m.stage == Stage::FlakeExists || m.stage == Stage::ConfigurationExists || m.stage
            == Stage::HomeExists,
    ensures
        advance(m, ReplyView::Exists(true)) == occupied(
            m,
            match m.stage {
                Stage::FlakeExists => FLAKE@,
                Stage::ConfigurationExists => CONFIGURATION@,
                _ => HOME@,
            },
        ),
{
}

/// Law: once the flow has ended, nothing more is asked for.
pub proof fn law_the_end_is_final(m: InitModel, reply: ReplyView)
    requires
        m.stage == Stage::Ended,
    ensures
        advance(m, reply) == broken(m),
        advance(m, reply).0 == m,
{
}

/// How many replies the flow still takes, at most.
pub open spec fn left(m: InitModel) -> int {
    match m.stage {
        Stage::FlakeExists => questions().len() as int + 6,
        Stage::ConfigurationExists => questions().len() as int + 5,
        Stage::HomeExists => questions().len() as int + 4,
        Stage::Asking => questions().len() - m.answers.len() + 3,
        Stage::WriteFlake => 3,
        Stage::WriteConfiguration => 2,
        Stage::WriteHome => 1,
        Stage::Ended => 0,
    }
}

/// Law: every reply brings the flow nearer to its end.
pub proof fn law_progress(m: InitModel, reply: ReplyView)
    requires
        m.valid(),
        m.stage != Stage::Ended,
    ensures
        advance(m, reply).0.valid(),
        0 <= left(advance(m, reply).0) < left(m),
{
}

/// Whether the stage comes after the three files were looked for.
spec fn writing(stage: Stage) -> bool {
    match stage {
        Stage::Asking | Stage::WriteFlake | Stage::WriteConfiguration | Stage::WriteHome => true,
        _ => false,
    }
}

/// What was found before a stage.
proof fn lemma_checked(replies: Seq<ReplyView>)
    ensures
        ({
            let stage = model_after(replies).stage;
            &&& stage == Stage::FlakeExists ==> replies.len() == 0
            &&& stage == Stage::ConfigurationExists ==> replies.len() == 1 && found_missing(
                replies,
                0,
                FLAKE@,
            ) && turn_after(replies).request == RequestView::Exists(CONFIGURATION@)
            &&& stage == Stage::HomeExists ==> replies.len() == 2 && found_missing(
                replies,
                0,
                FLAKE@,
            ) && found_missing(replies, 1, CONFIGURATION@) && turn_after(replies).request
                == RequestView::Exists(HOME@)
            &&& writing(stage) ==> found_missing(replies, 0, FLAKE@) && found_missing(
                replies,
                1,
                CONFIGURATION@,
            ) && found_missing(replies, 2, HOME@)
        }),
    decreases replies.len(),
{
    if replies.len() > 0 {
        let front = replies.drop_last();
        lemma_checked(front);
        assert(replies.take(0) =~= front.take(0));
        if front.len() > 0 {
            assert(replies.take(1) =~= front.take(1));
        } else {
            assert(replies.take(0) =~= front);
        }
        if front.len() > 1 {
            assert(replies.take(2) =~= front.take(2));
        } else if front.len() == 1 {
            assert(replies.take(1) =~= front);
        }
        if front.len() == 2 {
            assert(replies.take(2) =~= front);
        }
    }
}

} // verus!
