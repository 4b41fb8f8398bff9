//! The questions about a configuration, and what the answers make.

use vstd::prelude::*;

use crate::config::{Answers, AnswersView};
use crate::flow::{
    ask, choice, pick, picked, typed, Reply, ReplyView, Request, RequestView,
};
use crate::text::owned;

verus! {

/// A question about the configuration.
#[derive(Debug)]
pub enum Question {
    /// The user types the answer.
    Ask { prompt: String, default: String },
    /// The user chooses the answer.
    Pick { prompt: String, options: Vec<String> },
}

/// The value of a `Question`.
pub enum QuestionView {
    Ask { prompt: Seq<char>, default: Seq<char> },
    Pick { prompt: Seq<char>, options: Seq<Seq<char>> },
}

impl DeepView for Question {
    type V = QuestionView;

    open spec fn deep_view(&self) -> QuestionView {
        match self {
            Question::Ask { prompt, default } => QuestionView::Ask {
                prompt: prompt@,
                default: default@,
            },
            Question::Pick { prompt, options } => QuestionView::Pick {
                prompt: prompt@,
                options: options.deep_view(),
            },
        }
    }
}

/// The questions, in their order.
pub open spec fn questions() -> Seq<QuestionView> {
    seq![
        QuestionView::Ask { prompt: "System hostname"@, default: "desktop"@ },
        QuestionView::Ask { prompt: "User"@, default: "john"@ },
        QuestionView::Ask { prompt: "Full Name"@, default: "John Doe"@ },
        QuestionView::Ask { prompt: "Email Address"@, default: "john@doe.com"@ },
        QuestionView::Pick { prompt: "Window manager"@, options: seq!["hyprland"@] },
        QuestionView::Pick { prompt: "Terminal"@, options: seq!["kitty"@] },
        QuestionView::Pick { prompt: "Display manager"@, options: seq!["sddm"@] },
        QuestionView::Pick { prompt: "Launcher"@, options: seq!["wofi"@] },
        QuestionView::Pick { prompt: "Browser"@, options: seq!["firefox"@] },
        QuestionView::Pick { prompt: "Shell"@, options: seq!["exoshell"@, "noctalia"@, "dms"@] },
        QuestionView::Pick { prompt: "Editor"@, options: seq!["micro"@] },
        QuestionView::Pick {
            prompt: "Wallpaper"@,
            options: seq!["nixos"@, "mountain"@, "strips"@, "gradient"@],
        },
        QuestionView::Pick {
            prompt: "Theme"@,
            options: seq![
                "everforest"@,
                "nord"@,
                "dracula"@,
                "catppuccinFrappe"@,
                "iceberg"@,
                "icebergDark"@,
                "kawagama"@,
                "rosePine"@,
                "tokyoNight"@,
                "oxocarbon"@,
                "monokaiPro"@,
                "synthwave"@,
                "atom"@,
            ],
        },
    ]
}

/// The request that puts a question to the user.
pub open spec fn question_request(q: QuestionView) -> RequestView {
    match q {
        QuestionView::Ask { prompt, default } => RequestView::Input { prompt, default },
        QuestionView::Pick { prompt, options } => RequestView::Select { prompt, options },
    }
}

/// The answer that a reply gives to a question.
pub open spec fn answer(q: QuestionView, reply: ReplyView) -> Option<Seq<char>> {
    match q {
        QuestionView::Ask { prompt, default } => typed(default, reply),
        QuestionView::Pick { prompt, options } => picked(options, reply),
    }
}

/// The answers, by name, from the list of the answers to all questions.
pub open spec fn answers_of(list: Seq<Seq<char>>) -> AnswersView {
    AnswersView {
        system_name: list[0],
        user: list[1],
        full_name: list[2],
        email: list[3],
        wm: list[4],
        terminal: list[5],
        dm: list[6],
        launcher: list[7],
        browser: list[8],
        shell: list[9],
        editor: list[10],
        wallpaper: list[11],
        theme: list[12],
    }
}

fn ask_question(prompt: &str, default: &str) -> (r: Question)
    ensures
        r.deep_view() == (QuestionView::Ask { prompt: prompt@, default: default@ }),
{
    Question::Ask { prompt: prompt.to_string(), default: default.to_string() }
}

fn pick_question(prompt: &str, options: Vec<&str>) -> (r: Question)
    ensures
        r.deep_view() == (QuestionView::Pick { prompt: prompt@, options: options.deep_view() }),
{
    Question::Pick { prompt: prompt.to_string(), options: owned(options) }
}

/// The questions, in their order.
pub fn all_questions() -> (r: Vec<Question>)
    ensures
        r.deep_view() == questions(),
{
    let r = vec![
        ask_question("System hostname", "desktop"),
        ask_question("User", "john"),
        ask_question("Full Name", "John Doe"),
        ask_question("Email Address", "john@doe.com"),
        pick_question("Window manager", vec!["hyprland"]),
        pick_question("Terminal", vec!["kitty"]),
        pick_question("Display manager", vec!["sddm"]),
        pick_question("Launcher", vec!["wofi"]),
        pick_question("Browser", vec!["firefox"]),
        pick_question("Shell", vec!["exoshell", "noctalia", "dms"]),
        pick_question("Editor", vec!["micro"]),
        pick_question("Wallpaper", vec!["nixos", "mountain", "strips", "gradient"]),
        pick_question(
            "Theme",
            vec![
                "everforest",
                "nord",
                "dracula",
                "catppuccinFrappe",
                "iceberg",
                "icebergDark",
                "kawagama",
                "rosePine",
                "tokyoNight",
                "oxocarbon",
                "monokaiPro",
                "synthwave",
                "atom",
            ],
        ),
    ];
    proof {
        assert(r@[4].deep_view() == questions()[4]) by {
            assert(r@[4].deep_view()->Pick_options =~= questions()[4]->Pick_options);
        }
        assert(r@[5].deep_view() == questions()[5]) by {
            assert(r@[5].deep_view()->Pick_options =~= questions()[5]->Pick_options);
        }
        assert(r@[6].deep_view() == questions()[6]) by {
            assert(r@[6].deep_view()->Pick_options =~= questions()[6]->Pick_options);
        }
        assert(r@[7].deep_view() == questions()[7]) by {
            assert(r@[7].deep_view()->Pick_options =~= questions()[7]->Pick_options);
        }
        assert(r@[8].deep_view() == questions()[8]) by {
            assert(r@[8].deep_view()->Pick_options =~= questions()[8]->Pick_options);
        }
        assert(r@[9].deep_view() == questions()[9]) by {
            assert(r@[9].deep_view()->Pick_options =~= questions()[9]->Pick_options);
        }
        assert(r@[10].deep_view() == questions()[10]) by {
            assert(r@[10].deep_view()->Pick_options =~= questions()[10]->Pick_options);
        }
        assert(r@[11].deep_view() == questions()[11]) by {
            assert(r@[11].deep_view()->Pick_options =~= questions()[11]->Pick_options);
        }
        assert(r@[12].deep_view() == questions()[12]) by {
            assert(r@[12].deep_view()->Pick_options =~= questions()[12]->Pick_options);
        }
        assert(r.deep_view() =~= questions());
    }
    r
}

/// The request that puts question `i` to the user.
pub fn put_question(i: usize) -> (r: Request)
    requires
        i < questions().len(),
    ensures
        r.deep_view() == question_request(questions()[i as int]),
{
    let mut all = all_questions();
    assert(all.deep_view()[i as int] == all@[i as int].deep_view());
    match all.remove(i) {
        Question::Ask { prompt, default } => Request::Input { prompt, default },
        Question::Pick { prompt, options } => Request::Select { prompt, options },
    }
}

/// The answer that a reply gives to question `i`; `None` where it gives none.
pub fn take_answer(i: usize, reply: Reply) -> (r: Option<String>)
    requires
        i < questions().len(),
    ensures
        r.deep_view() == answer(questions()[i as int], reply.deep_view()),
{
    let all = all_questions();
    assert(all.deep_view()[i as int] == all@[i as int].deep_view());
    match &all[i] {
        Question::Ask { prompt: _, default } => ask(default.as_str(), reply),
        Question::Pick { prompt: _, options } => pick(options, &reply),
    }
}

/// The answers, by name.
pub fn name_answers(list: &Vec<String>) -> (r: Answers)
    requires
        list@.len() == questions().len(),
    ensures
        r.deep_view() == answers_of(list.deep_view()),
{
    Answers {
        system_name: list[0].clone(),
        user: list[1].clone(),
        full_name: list[2].clone(),
        email: list[3].clone(),
        wm: list[4].clone(),
        terminal: list[5].clone(),
        dm: list[6].clone(),
        launcher: list[7].clone(),
        browser: list[8].clone(),
        shell: list[9].clone(),
        editor: list[10].clone(),
        wallpaper: list[11].clone(),
        theme: list[12].clone(),
    }
}

/// Whether a text can be the answer to a question: any that is typed, and each option
/// that can be chosen.
pub open spec fn fits(q: QuestionView, text: Seq<char>) -> bool {
    match q {
        QuestionView::Ask { prompt, default } => true,
        QuestionView::Pick { prompt, options } => options.contains(text),
    }
}

/// Law: an answer that is chosen is one of the options, and one that is typed is what
/// was typed or the default.
pub proof fn law_answers_fit(q: QuestionView, reply: ReplyView)
    requires
        answer(q, reply) is Some,
    ensures
        fits(q, answer(q, reply)->0),
        q matches QuestionView::Ask { prompt, default } ==> match reply {
            ReplyView::Text(Some(text)) => answer(q, reply) == Some(text),
            _ => answer(q, reply) == Some(default),
        },
{
    if let QuestionView::Pick { prompt, options } = q {
        let i = choice(options.len(), reply)->0;
        assert(options[i] == answer(q, reply)->0);
    }
}

/// Law: no question is without an answer: where the user gives none, the default or
/// the first option is taken.
pub proof fn law_every_question_has_an_answer(i: int)
    requires
        0 <= i < questions().len(),
    ensures
        match questions()[i] {
            QuestionView::Ask { prompt, default } => answer(questions()[i], ReplyView::Text(None))
                == Some(default),
            QuestionView::Pick { prompt, options } => options.len() > 0 && answer(
                questions()[i],
                ReplyView::Choice(None),
            ) == Some(options[0]),
        },
{
}

/// Whether question `i` asks for a text, under this prompt and with this default.
pub open spec fn asks(i: int, prompt: Seq<char>, default: Seq<char>) -> bool {
    0 <= i < questions().len() && question_request(questions()[i]) == (RequestView::Input {
        prompt,
        default,
    })
}

/// Whether question `i` offers these options, under this prompt.
pub open spec fn offers(i: int, prompt: Seq<char>, options: Seq<Seq<char>>) -> bool {
    0 <= i < questions().len() && question_request(questions()[i]) == (RequestView::Select {
        prompt,
        options,
    })
}

/// Law: what is asked, and for which part of the configuration each answer counts.
pub proof fn law_each_answer_counts_for_its_question(list: Seq<Seq<char>>)
    requires
        list.len() == questions().len(),
    ensures
        questions().len() == 13,
        ({
            let a = answers_of(list);
            &&& asks(0, "System hostname"@, "desktop"@) && a.system_name == list[0]
            &&& asks(1, "User"@, "john"@) && a.user == list[1]
            &&& asks(2, "Full Name"@, "John Doe"@) && a.full_name == list[2]
            &&& asks(3, "Email Address"@, "john@doe.com"@) && a.email == list[3]
            &&& offers(4, "Window manager"@, seq!["hyprland"@]) && a.wm == list[4]
            &&& offers(5, "Terminal"@, seq!["kitty"@]) && a.terminal == list[5]
            &&& offers(6, "Display manager"@, seq!["sddm"@]) && a.dm == list[6]
            &&& offers(7, "Launcher"@, seq!["wofi"@]) && a.launcher == list[7]
            &&& offers(8, "Browser"@, seq!["firefox"@]) && a.browser == list[8]
            &&& offers(9, "Shell"@, seq!["exoshell"@, "noctalia"@, "dms"@]) && a.shell == list[9]
            &&& offers(10, "Editor"@, seq!["micro"@]) && a.editor == list[10]
            &&& offers(11, "Wallpaper"@, seq!["nixos"@, "mountain"@, "strips"@, "gradient"@]) && a.wallpaper == list[11]
            &&& offers(
                12,
                "Theme"@,
                seq![
                    "everforest"@,
                    "nord"@,
                    "dracula"@,
                    "catppuccinFrappe"@,
                    "iceberg"@,
                    "icebergDark"@,
                    "kawagama"@,
                    "rosePine"@,
                    "tokyoNight"@,
                    "oxocarbon"@,
                    "monokaiPro"@,
                    "synthwave"@,
                    "atom"@,
                ],
            ) && a.theme == list[12]
        }),
{
}

/// Law: the answer to a question is the option that the user chose, or the text that the
/// user typed.
pub proof fn law_an_answer_is_what_the_user_gave(
    prompt: Seq<char>,
    options: Seq<Seq<char>>,
    default: Seq<char>,
    i: usize,
    text: Seq<char>,
)
    ensures
        i < options.len() ==> answer(
            QuestionView::Pick { prompt, options },
            ReplyView::Choice(Some(i)),
        ) == Some(options[i as int]),
        answer(QuestionView::Ask { prompt, default }, ReplyView::Text(Some(text))) == Some(text),
        question_request(QuestionView::Pick { prompt, options }) == (RequestView::Select {
            prompt,
            options,
        }),
        question_request(QuestionView::Ask { prompt, default }) == (RequestView::Input {
            prompt,
            default,
        }),
{
}

} // verus!
