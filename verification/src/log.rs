//! The build log: which derivations are being built, and what to show of them.

use vstd::prelude::*;

use crate::pattern::{
    log_line, patterns_accepted, regex_is_match, LogLine, LogLineView, Patterns, STORE_PATH,
};
use crate::style::{plain, span, styled, Span, SpanView, Style};
use crate::text::{chars_of, digit, same, slice_of, trimmed};

verus! {

/// Something to do to the display: a main progress bar, and one spinner for
/// each derivation that is being built.
#[derive(Debug)]
pub enum UiAction {
    /// Turn the main bar into one of this length.
    SetLength(u64),
    /// Move the main bar on by one.
    Advance,
    /// Show a message beside the main bar.
    MainMessage(Vec<Span>),
    /// Add a spinner for a derivation above the main bar.
    AddSpinner { stem: String, message: Vec<Span> },
    /// Show a message beside a spinner.
    SpinnerMessage { stem: String, message: Vec<Span> },
    /// Stop a spinner, and leave this message in its place.
    FinishSpinner { stem: String, message: Vec<Span> },
    /// Print a line above the bars.
    PrintAbove(Vec<Span>),
    /// Stop the main bar and remove it.
    ClearMain,
    /// Print a line.
    Print(Vec<Span>),
}

/// The value of a `UiAction`.
pub enum UiView {
    SetLength(u64),
    Advance,
    MainMessage(Seq<SpanView>),
    AddSpinner { stem: Seq<char>, message: Seq<SpanView> },
    SpinnerMessage { stem: Seq<char>, message: Seq<SpanView> },
    FinishSpinner { stem: Seq<char>, message: Seq<SpanView> },
    PrintAbove(Seq<SpanView>),
    ClearMain,
    Print(Seq<SpanView>),
}

impl DeepView for UiAction {
    type V = UiView;

    open spec fn deep_view(&self) -> UiView {
        match self {
            UiAction::SetLength(n) => UiView::SetLength(*n),
            UiAction::Advance => UiView::Advance,
            UiAction::MainMessage(m) => UiView::MainMessage(m.deep_view()),
            UiAction::AddSpinner { stem, message } => UiView::AddSpinner {
                stem: stem@,
                message: message.deep_view(),
            },
            UiAction::SpinnerMessage { stem, message } => UiView::SpinnerMessage {
                stem: stem@,
                message: message.deep_view(),
            },
            UiAction::FinishSpinner { stem, message } => UiView::FinishSpinner {
                stem: stem@,
                message: message.deep_view(),
            },
            UiAction::PrintAbove(m) => UiView::PrintAbove(m.deep_view()),
            UiAction::ClearMain => UiView::ClearMain,
            UiAction::Print(m) => UiView::Print(m.deep_view()),
        }
    }
}

/// What the processor knows: the stems of the derivations that are being built,
/// in the order in which they started, and the stem that each prefix of the log
/// stands for.
#[verifier::ext_equal]
pub struct LogModel {
    pub active: Seq<Seq<char>>,
    pub stems: Map<Seq<char>, Seq<char>>,
}

impl LogModel {
    /// Nothing is being built.
    pub open spec fn idle() -> LogModel {
        LogModel { active: Seq::empty(), stems: Map::empty() }
    }

    /// No derivation is listed twice, and every prefix stands for a derivation
    /// that is being built and has it as its own.
    pub open spec fn valid(self) -> bool {
        &&& self.active.no_duplicates()
        &&& forall|p: Seq<char>| #[trigger]
            self.stems.contains_key(p) ==> self.active.contains(self.stems[p]) && p == prefix_of(
                self.stems[p],
            )
    }

    /// The model without the derivation `stem` and the prefixes that stand for it.
    pub open spec fn without(self, stem: Seq<char>) -> LogModel {
        LogModel {
            active: self.active.remove(self.active.index_of(stem)),
            stems: self.stems.restrict(Set::new(|p: Seq<char>| self.stems[p] != stem)),
        }
    }

    /// The model with the derivation `stem` among those being built.
    pub open spec fn with(self, stem: Seq<char>) -> LogModel {
        LogModel {
            active: self.active.push(stem),
            stems: self.stems.insert(prefix_of(stem), stem),
        }
    }
}

/// Whether a version starts behind position `i`: a hyphen, then a digit.
pub open spec fn version_at(stem: Seq<char>, i: int) -> bool {
    0 <= i && i + 1 < stem.len() && stem[i] == '-' && digit(stem[i + 1])
}

/// The position of the first hyphen of `stem` from `i` on that a digit follows,
/// or the length of `stem` where there is none.
pub open spec fn version_start(stem: Seq<char>, i: int) -> int
    decreases stem.len() - i,
{
    if i >= stem.len() {
        stem.len() as int
    } else if version_at(stem, i) {
        i
    } else {
        version_start(stem, i + 1)
    }
}

/// The name of a derivation without its version: what its log lines start with.
pub open spec fn prefix_of(stem: Seq<char>) -> Seq<char> {
    stem.take(version_start(stem, 0))
}

/// The message that replaces the spinner of a derivation that has ended.
pub open spec fn ended(pkg: Seq<char>, success: bool) -> Seq<SpanView> {
    if success {
        seq![span(Style::Green, "✔"@), span(Style::Plain, " "@), span(Style::Dimmed, pkg)]
    } else {
        seq![
            span(Style::RedBold, "✘"@),
            span(Style::Plain, " "@),
            span(Style::Red, "Failed:"@),
            span(Style::Plain, " "@),
            span(Style::RedBold, pkg),
        ]
    }
}

/// Stop the spinner of a derivation that has ended.
pub open spec fn stop(stem: Seq<char>, success: bool) -> UiView {
    UiView::FinishSpinner { stem, message: ended(stem, success) }
}

/// What happens when the derivation `stem` ends: nothing where it is not being
/// built.
pub open spec fn finalized(m: LogModel, stem: Seq<char>, success: bool) -> (LogModel, Seq<UiView>) {
    if m.active.contains(stem) {
        (m.without(stem), seq![stop(stem, success)])
    } else {
        (m, seq![])
    }
}

/// What to show when the derivation `stem` starts.
pub open spec fn started(stem: Seq<char>) -> Seq<UiView> {
    seq![
        UiView::Advance,
        UiView::MainMessage(
            seq![
                span(Style::Plain, "Forging "@),
                span(Style::BrightBlue, stem),
                span(Style::Plain, "..."@),
            ],
        ),
        UiView::AddSpinner { stem, message: seq![span(Style::Cyan, stem)] },
    ]
}

/// What to show of a message in the log of the derivation `stem`.
pub open spec fn reported(stem: Seq<char>, text: Seq<char>, error: bool) -> Seq<UiView> {
    let shown = UiView::SpinnerMessage {
        stem,
        message: seq![
            span(Style::Cyan, stem),
            span(Style::Plain, ": "@),
            span(Style::Dimmed, text),
        ],
    };
    if error {
        seq![
            shown,
            UiView::PrintAbove(
                seq![
                    span(Style::Plain, "  "@),
                    span(Style::Red, stem),
                    span(Style::Plain, " "@),
                    span(Style::Dimmed, "│"@),
                    span(Style::Plain, " "@),
                    span(Style::RedDimmed, text),
                ],
            ),
        ]
    } else {
        seq![shown]
    }
}

/// What a line of the log changes, and what to show of it.
pub open spec fn logged(m: LogModel, line: LogLineView) -> (LogModel, Seq<UiView>) {
    match line {
        LogLineView::Quiet => (m, seq![]),
        LogLineView::Total(Some(n)) => (m, seq![UiView::SetLength(n)]),
        LogLineView::Total(None) => (m, seq![]),
        LogLineView::Building(stem) => if m.active.contains(stem) {
            (m, seq![])
        } else {
            (m.with(stem), started(stem))
        },
        LogLineView::Failed(stem) => finalized(m, stem, false),
        LogLineView::Message { prefix, text, error } => if m.stems.contains_key(prefix)
            && m.active.contains(m.stems[prefix]) {
            (m, reported(m.stems[prefix], text, error))
        } else {
            (m, seq![])
        },
        LogLineView::Other(text) => (
            m,
            seq![
                UiView::PrintAbove(seq![span(Style::Plain, "  "@), span(Style::Dimmed, text)]),
            ],
        ),
    }
}

/// What to show when every derivation that is being built ends.
pub open spec fn all_stopped(active: Seq<Seq<char>>, success: bool) -> Seq<UiView> {
    active.map_values(|stem: Seq<char>| stop(stem, success))
}

/// What to show when the whole build has succeeded.
pub open spec fn finished(m: LogModel) -> Seq<UiView> {
    all_stopped(m.active, true) + seq![
        UiView::ClearMain,
        UiView::Print(
            seq![
                span(Style::Plain, "✨ "@),
                span(Style::BrightWhiteBold, "System solidified."@),
            ],
        ),
    ]
}

/// What to show when the build is given up.
pub open spec fn aborted(m: LogModel) -> Seq<UiView> {
    all_stopped(m.active, false) + seq![UiView::ClearMain]
}

/// A derivation that is being built.
pub struct DrvState {
    pkg: String,
}

/// The stem that a prefix of the log stands for.
struct Alias {
    prefix: String,
    stem: String,
}

/// The stems of a list of derivations.
pub closed spec fn stems_of(active: Seq<DrvState>) -> Seq<Seq<char>> {
    active.map_values(|d: DrvState| d.pkg@)
}

/// Whether entry `i` is the one for `prefix`.
spec fn entry_at(s: Seq<Alias>, prefix: Seq<char>, i: int) -> bool {
    0 <= i < s.len() && s[i].prefix@ == prefix
}

/// The entries as a map.
spec fn alias_map(s: Seq<Alias>) -> Map<Seq<char>, Seq<char>> {
    Map::new(
        |p: Seq<char>| exists|i: int| entry_at(s, p, i),
        |p: Seq<char>| s[choose|i: int| entry_at(s, p, i)].stem@,
    )
}

/// Whether no prefix has two entries.
spec fn distinct(s: Seq<Alias>) -> bool {
    forall|i: int, j: int|
        0 <= i < s.len() && 0 <= j < s.len() && i != j ==> #[trigger] s[i].prefix@
            != #[trigger] s[j].prefix@
}

/// Where no prefix has two entries, the map holds each of them.
proof fn lemma_alias(s: Seq<Alias>, i: int)
    requires
        distinct(s),
        0 <= i < s.len(),
    ensures
        alias_map(s).contains_key(s[i].prefix@),
        alias_map(s)[s[i].prefix@] == s[i].stem@,
{
    let p = s[i].prefix@;
    assert(entry_at(s, p, i));
    let j = choose|j: int| entry_at(s, p, j);
    assert(s[j].prefix@ == s[i].prefix@);
}

/// The message that replaces the spinner of a derivation that has ended.
fn ended_message(pkg: &str, success: bool) -> (r: Vec<Span>)
    ensures
        r.deep_view() == ended(pkg@, success),
{
    let r = if success {
        vec![styled(Style::Green, "✔"), plain(" "), styled(Style::Dimmed, pkg)]
    } else {
        vec![
            styled(Style::RedBold, "✘"),
            plain(" "),
            styled(Style::Red, "Failed:"),
            plain(" "),
            styled(Style::RedBold, pkg),
        ]
    };
    assert(r.deep_view() =~= ended(pkg@, success));
    r
}

/// What to show when the derivation `stem` starts.
fn started_actions(stem: &str) -> (r: Vec<UiAction>)
    ensures
        r.deep_view() == started(stem@),
{
    let main = vec![plain("Forging "), styled(Style::BrightBlue, stem), plain("...")];
    let spinner = vec![styled(Style::Cyan, stem)];
    let r = vec![
        UiAction::Advance,
        UiAction::MainMessage(main),
        UiAction::AddSpinner { stem: stem.to_string(), message: spinner },
    ];
    proof {
        let shown = started(stem@);
        assert(main.deep_view() =~= shown[1]->MainMessage_0);
        assert(spinner.deep_view() =~= seq![span(Style::Cyan, stem@)]);
        assert(r.deep_view() =~= shown);
    }
    r
}

/// What to show of a message in the log of the derivation `stem`.
fn reported_actions(stem: &str, text: &str, error: bool) -> (r: Vec<UiAction>)
    ensures
        r.deep_view() == reported(stem@, text@, error),
{
    let message = vec![styled(Style::Cyan, stem), plain(": "), styled(Style::Dimmed, text)];
    let mut r = vec![UiAction::SpinnerMessage { stem: stem.to_string(), message }];
    let ghost shown = reported(stem@, text@, error);
    assert(message.deep_view() =~= shown[0]->SpinnerMessage_message);
    if error {
        let line = vec![
            plain("  "),
            styled(Style::Red, stem),
            plain(" "),
            styled(Style::Dimmed, "│"),
            plain(" "),
            styled(Style::RedDimmed, text),
        ];
        assert(line.deep_view() =~= shown[1]->PrintAbove_0);
        r.push(UiAction::PrintAbove(line));
    }
    assert(r.deep_view() =~= shown);
    r
}

/// What stands beside the main bar before anything is read.
pub fn waiting_message() -> (r: Vec<Span>)
    ensures
        r.deep_view() == seq![span(Style::Plain, "Waiting for Nix..."@)],
{
    let r = vec![plain("Waiting for Nix...")];
    assert(r.deep_view() =~= seq![span(Style::Plain, "Waiting for Nix..."@)]);
    r
}

/// Reads the lines of a build log and says what to show of them.
pub struct LogProcessor {
    active: Vec<DrvState>,
    prefix_to_stem: Vec<Alias>,
    patterns: Patterns,
}

impl LogProcessor {
    /// What the processor knows.
    pub closed spec fn model(&self) -> LogModel {
        LogModel { active: stems_of(self.active@), stems: alias_map(self.prefix_to_stem@) }
    }

    /// What every operation keeps.
    pub closed spec fn well_formed(&self) -> bool {
        &&& self.model().valid()
        &&& distinct(self.prefix_to_stem@)
        &&& self.patterns.well_formed()
    }

    /// A processor that has read nothing. `None` where the regex crate refuses
    /// one of the patterns.
    pub fn new() -> (r: Option<LogProcessor>)
        ensures
            r is Some <==> patterns_accepted(),
            r matches Some(p) ==> p.well_formed() && p.model() == LogModel::idle(),
    {
        match Patterns::new() {
            Some(patterns) => {
                let p = LogProcessor { active: Vec::new(), prefix_to_stem: Vec::new(), patterns };
                assert(p.model() =~= LogModel::idle());
                Some(p)
            },
            None => None,
        }
    }

    /// The name of a derivation without its version.
    pub fn short_prefix(stem: &str) -> (r: String)
        ensures
            r@ == prefix_of(stem@),
    {
        let v = chars_of(stem);
        let mut i: usize = 0;
        while i < v.len()
            invariant
                i <= v.len(),
                v@ == stem@,
                version_start(stem@, 0) == version_start(stem@, i as int),
            decreases v.len() - i,
        {
            if i + 1 < v.len() && v[i] == '-' && '0' <= v[i + 1] && v[i + 1] <= '9' {
                return slice_of(stem, 0, i);
            }
            i += 1;
        }
        assert(stem@.take(stem@.len() as int) =~= stem@);
        stem.to_string()
    }

    /// The position of `stem` among the derivations that are being built.
    fn position(&self, stem: &str) -> (r: Option<usize>)
        ensures
            match r {
                Some(i) => i < self.active@.len() && self.model().active[i as int] == stem@,
                None => !self.model().active.contains(stem@),
            },
    {
        let mut i: usize = 0;
        while i < self.active.len()
            invariant
                i <= self.active.len(),
                forall|k: int| 0 <= k < i ==> self.model().active[k] != stem@,
            decreases self.active.len() - i,
        {
            if same(self.active[i].pkg.as_str(), stem) {
                return Some(i);
            }
            i += 1;
        }
        None
    }

    /// Whether the derivation `stem` is being built.
    pub fn is_active(&self, stem: &str) -> (r: bool)
        ensures
            r == self.model().active.contains(stem@),
    {
        self.position(stem).is_some()
    }

    /// The stem that `prefix` stands for.
    pub fn stem_of(&self, prefix: &str) -> (r: Option<String>)
        requires
            self.well_formed(),
        ensures
            match r {
                Some(stem) => self.model().stems.contains_key(prefix@) && stem@
                    == self.model().stems[prefix@],
                None => !self.model().stems.contains_key(prefix@),
            },
    {
        let mut i: usize = 0;
        while i < self.prefix_to_stem.len()
            invariant
                i <= self.prefix_to_stem.len(),
                distinct(self.prefix_to_stem@),
                forall|k: int| 0 <= k < i ==> !entry_at(self.prefix_to_stem@, prefix@, k),
            decreases self.prefix_to_stem.len() - i,
        {
            if same(self.prefix_to_stem[i].prefix.as_str(), prefix) {
                proof {
                    lemma_alias(self.prefix_to_stem@, i as int);
                }
                return Some(self.prefix_to_stem[i].stem.clone());
            }
            i += 1;
        }
        None
    }

    /// Lets `prefix` stand for `stem`.
    fn remember(&mut self, prefix: String, stem: String)
        requires
            distinct(old(self).prefix_to_stem@),
        ensures
            final(self).active == old(self).active,
            final(self).patterns == old(self).patterns,
            distinct(final(self).prefix_to_stem@),
            alias_map(final(self).prefix_to_stem@) == alias_map(old(self).prefix_to_stem@).insert(
                prefix@,
                stem@,
            ),
    {
        let ghost before = self.prefix_to_stem@;
        let mut i: usize = 0;
        while i < self.prefix_to_stem.len() && !same(
            self.prefix_to_stem[i].prefix.as_str(),
            prefix.as_str(),
        )
            invariant
                i <= self.prefix_to_stem.len(),
                self.prefix_to_stem@ == before,
                self.active == old(self).active,
                self.patterns == old(self).patterns,
                forall|k: int| 0 <= k < i ==> !entry_at(before, prefix@, k),
            decreases self.prefix_to_stem.len() - i,
        {
            i += 1;
        }
        let ghost entry = Alias { prefix, stem };
        if i < self.prefix_to_stem.len() {
            self.prefix_to_stem.set(i, Alias { prefix, stem });
        } else {
            self.prefix_to_stem.push(Alias { prefix, stem });
        }
        proof {
            let after = self.prefix_to_stem@;
            assert(after[i as int] == entry);
            assert forall|j: int, k: int|
                0 <= j < after.len() && 0 <= k < after.len() && j != k implies #[trigger] after[j].prefix@
                != #[trigger] after[k].prefix@ by {
                if j < before.len() && k < before.len() {
                    assert(before[j].prefix@ != before[k].prefix@);
                } else if j < before.len() {
                    assert(!entry_at(before, prefix@, j));
                } else {
                    assert(!entry_at(before, prefix@, k));
                }
            }
            assert forall|p: Seq<char>| #[trigger]
                alias_map(after).contains_key(p) == alias_map(before).insert(
                    prefix@,
                    stem@,
                ).contains_key(p) by {
                lemma_alias(after, i as int);
                if alias_map(after).contains_key(p) && p != prefix@ {
                    let k = choose|k: int| entry_at(after, p, k);
                    assert(entry_at(before, p, k));
                }
                if alias_map(before).contains_key(p) && p != prefix@ {
                    let k = choose|k: int| entry_at(before, p, k);
                    assert(entry_at(after, p, k));
                }
            }
            assert forall|p: Seq<char>| #[trigger]
                alias_map(after).contains_key(p) implies alias_map(after)[p] == alias_map(
                before,
            ).insert(prefix@, stem@)[p] by {
                lemma_alias(after, i as int);
                if p != prefix@ {
                    let k = choose|k: int| entry_at(after, p, k);
                    assert(entry_at(before, p, k));
                    lemma_alias(after, k);
                    lemma_alias(before, k);
                }
            }
            assert(alias_map(after) =~= alias_map(before).insert(prefix@, stem@));
        }
    }

    /// Drops every prefix that stands for `stem`.
    fn forget(&mut self, stem: &str)
        requires
            distinct(old(self).prefix_to_stem@),
        ensures
            final(self).active == old(self).active,
            final(self).patterns == old(self).patterns,
            distinct(final(self).prefix_to_stem@),
            alias_map(final(self).prefix_to_stem@) == ({
                let m = alias_map(old(self).prefix_to_stem@);
                m.restrict(Set::new(|p: Seq<char>| m[p] != stem@))
            }),
    {
        let ghost before = self.prefix_to_stem@;
        let mut i: usize = 0;
        while i < self.prefix_to_stem.len()
            invariant
                i <= self.prefix_to_stem.len(),
                self.active == old(self).active,
                self.patterns == old(self).patterns,
                distinct(before),
                distinct(self.prefix_to_stem@),
                forall|k: int| 0 <= k < i ==> #[trigger] self.prefix_to_stem@[k].stem@ != stem@,
                forall|k: int|
                    0 <= k < self.prefix_to_stem@.len() ==> before.contains(
                        #[trigger] self.prefix_to_stem@[k],
                    ),
                forall|k: int|
                    0 <= k < before.len() && (#[trigger] before[k]).stem@ != stem@
                        ==> self.prefix_to_stem@.contains(before[k]),
            decreases self.prefix_to_stem.len() - i,
        {
            let ghost now = self.prefix_to_stem@;
            if same(self.prefix_to_stem[i].stem.as_str(), stem) {
                self.prefix_to_stem.remove(i);
                proof {
                    let after = self.prefix_to_stem@;
                    assert(after == now.remove(i as int));
                    assert forall|j: int, k: int|
                        0 <= j < after.len() && 0 <= k < after.len() && j
                            != k implies #[trigger] after[j].prefix@
                        != #[trigger] after[k].prefix@ by {
                        let a = if j < i {
                            j
                        } else {
                            j + 1
                        };
                        let b = if k < i {
                            k
                        } else {
                            k + 1
                        };
                        assert(now[a].prefix@ != now[b].prefix@);
                    }
                    assert forall|k: int|
                        0 <= k < before.len() && (#[trigger] before[k]).stem@
                            != stem@ implies after.contains(before[k]) by {
                        let j = choose|j: int| 0 <= j < now.len() && now[j] == before[k];
                        if j < i {
                            assert(after[j] == before[k]);
                        } else {
                            assert(after[j - 1] == before[k]);
                        }
                    }
                }
            } else {
                i += 1;
            }
        }
        proof {
            let after = self.prefix_to_stem@;
            let m = alias_map(before);
            let kept = m.restrict(Set::new(|p: Seq<char>| m[p] != stem@));
            assert forall|p: Seq<char>| #[trigger]
                alias_map(after).contains_key(p) == kept.contains_key(p) by {
                if alias_map(after).contains_key(p) {
                    let k = choose|k: int| entry_at(after, p, k);
                    let j = choose|j: int| 0 <= j < before.len() && before[j] == after[k];
                    lemma_alias(before, j);
                }
                if kept.contains_key(p) {
                    let j = choose|j: int| entry_at(before, p, j);
                    lemma_alias(before, j);
                    let k = choose|k: int| 0 <= k < after.len() && after[k] == before[j];
                    assert(entry_at(after, p, k));
                }
            }
            assert forall|p: Seq<char>| #[trigger]
                alias_map(after).contains_key(p) implies alias_map(after)[p] == kept[p] by {
                let k = choose|k: int| entry_at(after, p, k);
                let j = choose|j: int| 0 <= j < before.len() && before[j] == after[k];
                lemma_alias(before, j);
                lemma_alias(after, k);
            }
            assert(alias_map(after) =~= kept);
        }
    }

    /// Ends the derivation `stem`, where it is being built.
    pub fn finalize(&mut self, stem: &str, success: bool) -> (r: Vec<UiAction>)
        requires
            old(self).well_formed(),
        ensures
            final(self).well_formed(),
            (final(self).model(), r.deep_view()) == finalized(old(self).model(), stem@, success),
    {
        let ghost before = self.model();
        match self.position(stem) {
            Some(i) => {
                let state = self.active.remove(i);
                self.forget(stem);
                let message = ended_message(state.pkg.as_str(), success);
                let r = vec![UiAction::FinishSpinner { stem: state.pkg, message }];
                proof {
                    let after = self.model();
                    assert(before.active.index_of(stem@) == i);
                    assert(after.active =~= before.active.remove(i as int));
                    assert(after =~= before.without(stem@));
                    lemma_without_valid(before, stem@);
                    assert(r.deep_view() =~= seq![stop(stem@, success)]);
                }
                r
            },
            None => {
                let r: Vec<UiAction> = Vec::new();
                assert(r.deep_view() =~= seq![]);
                r
            },
        }
    }

    /// Ends every derivation that is being built, in the order in which they
    /// started.
    pub fn finalize_all(&mut self, success: bool) -> (r: Vec<UiAction>)
        requires
            old(self).well_formed(),
        ensures
            final(self).well_formed(),
            final(self).model() == LogModel::idle(),
            r.deep_view() == all_stopped(old(self).model().active, success),
    {
        let ghost all = all_stopped(self.model().active, success);
        let mut r: Vec<UiAction> = Vec::new();
        assert(r.deep_view() + all =~= all);
        while self.active.len() > 0
            invariant
                self.well_formed(),
                r.deep_view() + all_stopped(self.model().active, success) == all,
            decreases self.active.len(),
        {
            let ghost before = self.model();
            let ghost shown = r.deep_view();
            let stem = self.active[0].pkg.clone();
            assert(before.active[0] == stem@);
            let mut more = self.finalize(stem.as_str(), success);
            let ghost added = more.deep_view();
            r.append(&mut more);
            proof {
                assert(before.active.contains(stem@));
                assert(before.active.index_of(stem@) == 0);
                assert(r.deep_view() =~= shown + added);
                assert(all_stopped(before.active, success) =~= seq![stop(stem@, success)]
                    + all_stopped(self.model().active, success));
                assert(shown + added + all_stopped(self.model().active, success) =~= shown
                    + all_stopped(before.active, success));
                assert(self.model().active.len() == before.active.len() - 1);
            }
        }
        proof {
            assert(self.model().active =~= Seq::empty());
            assert(r.deep_view() + all_stopped(self.model().active, success) =~= r.deep_view());
            assert forall|p: Seq<char>| !self.model().stems.contains_key(p) by {
                assert(!self.model().active.contains(self.model().stems[p]));
            }
            assert(self.model() =~= LogModel::idle());
        }
        r
    }

    /// Takes in what a line of the log says.
    pub fn apply(&mut self, line: LogLine) -> (r: Vec<UiAction>)
        requires
            old(self).well_formed(),
        ensures
            final(self).well_formed(),
            (final(self).model(), r.deep_view()) == logged(old(self).model(), line.deep_view()),
    {
        let ghost before = self.model();
        let mut r: Vec<UiAction> = Vec::new();
        assert(r.deep_view() =~= seq![]);
        match line {
            LogLine::Quiet => {},
            LogLine::Total(Some(n)) => {
                r.push(UiAction::SetLength(n));
                assert(r.deep_view() =~= seq![UiView::SetLength(n)]);
            },
            LogLine::Total(None) => {},
            LogLine::Building(stem) => {
                if !self.is_active(stem.as_str()) {
                    r = started_actions(stem.as_str());
                    let prefix = LogProcessor::short_prefix(stem.as_str());
                    self.remember(prefix, stem.clone());
                    self.active.push(DrvState { pkg: stem });
                    proof {
                        assert(self.model().active =~= before.active.push(stem@));
                        assert(self.model() =~= before.with(stem@));
                        lemma_with_valid(before, stem@);
                    }
                }
            },
            LogLine::Failed(stem) => {
                r = self.finalize(stem.as_str(), false);
            },
            LogLine::Message { prefix, text, error } => {
                match self.stem_of(prefix.as_str()) {
                    Some(stem) => {
                        if self.is_active(stem.as_str()) {
                            r = reported_actions(stem.as_str(), text.as_str(), error);
                        }
                    },
                    None => {},
                }
            },
            LogLine::Other(text) => {
                let shown = vec![plain("  "), styled(Style::Dimmed, text.as_str())];
                r.push(UiAction::PrintAbove(shown));
                proof {
                    assert(shown.deep_view() =~= seq![
                        span(Style::Plain, "  "@),
                        span(Style::Dimmed, text@),
                    ]);
                    assert(r.deep_view() =~= logged(before, line.deep_view()).1);
                }
            },
        }
        r
    }

    /// Takes in a line of the log.
    pub fn process(&mut self, line: &str) -> (r: Vec<UiAction>)
        requires
            old(self).well_formed(),
        ensures
            final(self).well_formed(),
            (final(self).model(), r.deep_view()) == logged(old(self).model(), log_line(line@)),
    {
        let line = self.patterns.read(line);
        self.apply(line)
    }

    /// Ends the log of a build that has succeeded.
    pub fn finish(&mut self) -> (r: Vec<UiAction>)
        requires
            old(self).well_formed(),
        ensures
            final(self).well_formed(),
            final(self).model() == LogModel::idle(),
            r.deep_view() == finished(old(self).model()),
    {
        let ghost before = self.model();
        let mut r = self.finalize_all(true);
        let message = vec![plain("✨ "), styled(Style::BrightWhiteBold, "System solidified.")];
        r.push(UiAction::ClearMain);
        r.push(UiAction::Print(message));
        proof {
            let n = before.active.len() as int;
            assert(message.deep_view() =~= finished(before)[n + 1]->Print_0);
            assert(r.deep_view() =~= finished(before));
        }
        r
    }

    /// Ends the log of a build that is given up.
    pub fn abort(&mut self) -> (r: Vec<UiAction>)
        requires
            old(self).well_formed(),
        ensures
            final(self).well_formed(),
            final(self).model() == LogModel::idle(),
            r.deep_view() == aborted(old(self).model()),
    {
        let ghost before = self.model();
        let mut r = self.finalize_all(false);
        r.push(UiAction::ClearMain);
        assert(r.deep_view() =~= aborted(before));
        r
    }
}

/// Taking in lines one after the other.
pub open spec fn replay(m: LogModel, lines: Seq<LogLineView>) -> (LogModel, Seq<UiView>)
    decreases lines.len(),
{
    if lines.len() == 0 {
        (m, seq![])
    } else {
        let (before, shown) = replay(m, lines.drop_last());
        let (after, more) = logged(before, lines.last());
        (after, shown + more)
    }
}

/// How many spinners of the derivation `stem` have been added and not been
/// finished.
pub open spec fn spinners(ui: Seq<UiView>, stem: Seq<char>) -> int
    decreases ui.len(),
{
    if ui.len() == 0 {
        0
    } else {
        spinners(ui.drop_last(), stem) + match ui.last() {
            UiView::AddSpinner { stem: s, message } => if s == stem {
                1int
            } else {
                0
            },
            UiView::FinishSpinner { stem: s, message } => if s == stem {
                -1
            } else {
                0
            },
            _ => 0,
        }
    }
}

/// What every operation of a processor keeps is enough for the laws.
pub proof fn lemma_well_formed(p: LogProcessor)
    requires
        p.well_formed(),
    ensures
        p.model().valid(),
{
}

/// Law: a derivation that has ended ends no second time.
pub proof fn law_ending_twice(m: LogModel, stem: Seq<char>, first: bool, second: bool)
    requires
        m.valid(),
    ensures
        ({
            let ended = finalized(m, stem, first).0;
            finalized(ended, stem, second) == (ended, Seq::<UiView>::empty())
        }),
{
    if m.active.contains(stem) {
        let n = m.active.index_of(stem);
        let rest = m.active.remove(n);
        assert(m.active[n] == stem);
        assert(!rest.contains(stem)) by {
            if rest.contains(stem) {
                let k = choose|k: int| 0 <= k < rest.len() && rest[k] == stem;
                assert(m.active[if k < n { k } else { k + 1 }] == stem);
            }
        }
    }
}

/// Law: the prefix of a derivation is its name up to the first hyphen that a digit
/// follows, and all of it where there is none.
pub proof fn law_the_prefix_ends_before_the_version(stem: Seq<char>)
    ensures
        ({
            let n = prefix_of(stem).len() as int;
            &&& n <= stem.len()
            &&& prefix_of(stem) == stem.take(n)
            &&& n < stem.len() ==> version_at(stem, n)
            &&& forall|k: int| 0 <= k < n ==> !#[trigger] version_at(stem, k)
        }),
{
    lemma_version_start(stem, 0);
}

/// What `version_start` names is a version with none before it.
proof fn lemma_version_start(stem: Seq<char>, i: int)
    requires
        0 <= i <= stem.len(),
    ensures
        i <= version_start(stem, i) <= stem.len(),
        version_start(stem, i) < stem.len() ==> version_at(stem, version_start(stem, i)),
        forall|k: int| i <= k < version_start(stem, i) ==> !#[trigger] version_at(stem, k),
    decreases stem.len() - i,
{
    if i < stem.len() && !version_at(stem, i) {
        lemma_version_start(stem, i + 1);
    }
}

/// Law: whatever a line says, no derivation is listed twice, and every prefix
/// stands for a derivation that is being built.
pub proof fn law_log_stays_valid(m: LogModel, line: LogLineView)
    requires
        m.valid(),
    ensures
        logged(m, line).0.valid(),
{
    match line {
        LogLineView::Building(stem) => {
            if !m.active.contains(stem) {
                lemma_with_valid(m, stem);
            }
        },
        LogLineView::Failed(stem) => {
            if m.active.contains(stem) {
                lemma_without_valid(m, stem);
            }
        },
        _ => {},
    }
}

/// Law: a line of white space changes nothing and shows nothing, nor does one in
/// which the regular expression for a store path matches.
pub proof fn law_quiet_lines(m: LogModel, line: Seq<char>)
    requires
        trimmed(line).len() == 0 || regex_is_match(STORE_PATH@, trimmed(line)),
    ensures
        logged(m, log_line(line)) == (m, Seq::<UiView>::empty()),
{
}

/// Law: a line that is taken in twice changes no more than when it is taken in
/// once.
pub proof fn law_taking_twice(m: LogModel, line: LogLineView)
    requires
        m.valid(),
    ensures
        logged(logged(m, line).0, line).0 == logged(m, line).0,
{
    match line {
        LogLineView::Building(stem) => {
            if !m.active.contains(stem) {
                assert(m.with(stem).active[m.active.len() as int] == stem);
            }
        },
        LogLineView::Failed(stem) => {
            if m.active.contains(stem) {
                lemma_without(m, stem, stem);
            }
        },
        _ => {},
    }
}

/// Law: a derivation that starts and fails is shown as failed, once, and leaves
/// the others as they were.
pub proof fn law_start_and_failure(m: LogModel, stem: Seq<char>)
    requires
        m.valid(),
        !m.active.contains(stem),
    ensures
        ({
            let started = logged(m, LogLineView::Building(stem)).0;
            let (after, shown) = logged(started, LogLineView::Failed(stem));
            &&& after.active == m.active
            &&& shown == seq![stop(stem, false)]
            &&& logged(after, LogLineView::Failed(stem)).1 == Seq::<UiView>::empty()
        }),
{
    let started = m.with(stem);
    let n = m.active.len() as int;
    assert(started.active[n] == stem);
    let i = started.active.index_of(stem);
    assert(started.active[i] == stem);
    if i < n {
        assert(m.active[i] == stem);
    }
    assert(started.active.remove(n) =~= m.active);
}

/// Law: once a derivation has started, the log lines under its prefix are shown as
/// its own.
pub proof fn law_messages_reach_the_latest(
    m: LogModel,
    stem: Seq<char>,
    text: Seq<char>,
    error: bool,
)
    requires
        !m.active.contains(stem),
    ensures
        logged(
            logged(m, LogLineView::Building(stem)).0,
            LogLineView::Message { prefix: prefix_of(stem), text, error },
        ).1 == reported(stem, text, error),
{
    assert(m.with(stem).active[m.active.len() as int] == stem);
}

/// Law: a derivation has one spinner while it is being built and none otherwise,
/// and when the log ends, in success or not, no spinner is left.
pub proof fn law_no_spinner_is_left(lines: Seq<LogLineView>, stem: Seq<char>, success: bool)
    ensures
        ({
            let (m, ui) = replay(LogModel::idle(), lines);
            &&& spinners(ui, stem) == if m.active.contains(stem) {
                1int
            } else {
                0
            }
            &&& spinners(ui + all_stopped(m.active, success), stem) == 0
        }),
{
    lemma_replay(lines, stem);
    let (m, ui) = replay(LogModel::idle(), lines);
    lemma_spinners_add(ui, all_stopped(m.active, success), stem);
    lemma_all_stopped(m.active, success, stem);
}

/// What a run of lines from the start has led to.
proof fn lemma_replay(lines: Seq<LogLineView>, stem: Seq<char>)
    ensures
        replay(LogModel::idle(), lines).0.valid(),
        spinners(replay(LogModel::idle(), lines).1, stem) == if replay(
            LogModel::idle(),
            lines,
        ).0.active.contains(stem) {
            1int
        } else {
            0
        },
    decreases lines.len(),
{
    if lines.len() > 0 {
        lemma_replay(lines.drop_last(), stem);
        let (before, shown) = replay(LogModel::idle(), lines.drop_last());
        let (after, more) = logged(before, lines.last());
        law_log_stays_valid(before, lines.last());
        lemma_spinners_add(shown, more, stem);
        lemma_line_spinners(before, lines.last(), stem);
    }
}

/// What one line does to the spinners of a derivation.
proof fn lemma_line_spinners(m: LogModel, line: LogLineView, stem: Seq<char>)
    requires
        m.valid(),
    ensures
        ({
            let (after, more) = logged(m, line);
            let was: int = if m.active.contains(stem) {
                1
            } else {
                0
            };
            let is: int = if after.active.contains(stem) {
                1
            } else {
                0
            };
            spinners(more, stem) == is - was
        }),
{
    reveal_with_fuel(spinners, 4);
    let (after, more) = logged(m, line);
    match line {
        LogLineView::Building(s) => {
            if !m.active.contains(s) {
                assert(after.active[m.active.len() as int] == s);
                assert(started(s).drop_last().drop_last().drop_last() =~= seq![]);
                assert(started(s).drop_last().last() is MainMessage);
                if m.active.contains(stem) {
                    let i = choose|i: int| 0 <= i < m.active.len() && m.active[i] == stem;
                    assert(after.active[i] == stem);
                }
            }
        },
        LogLineView::Failed(s) => {
            if m.active.contains(s) {
                lemma_without(m, s, stem);
                assert(more.drop_last() =~= seq![]);
            }
        },
        _ => {},
    }
}

/// Ending one derivation removes it and no other.
proof fn lemma_without(m: LogModel, stem: Seq<char>, other: Seq<char>)
    requires
        m.valid(),
        m.active.contains(stem),
    ensures
        m.without(stem).active.contains(other) <==> m.active.contains(other) && other != stem,
{
    let i = m.active.index_of(stem);
    let left = m.without(stem).active;
    assert(m.active[i] == stem);
    if left.contains(other) {
        let j = choose|j: int| 0 <= j < left.len() && left[j] == other;
        let k = if j < i {
            j
        } else {
            j + 1
        };
        assert(m.active[k] == other);
    }
    if m.active.contains(other) && other != stem {
        let k = choose|k: int| 0 <= k < m.active.len() && m.active[k] == other;
        let j = if k < i {
            k
        } else {
            k - 1
        };
        assert(left[j] == other);
    }
}

/// The spinners of two runs add up.
proof fn lemma_spinners_add(a: Seq<UiView>, b: Seq<UiView>, stem: Seq<char>)
    ensures
        spinners(a + b, stem) == spinners(a, stem) + spinners(b, stem),
    decreases b.len(),
{
    if b.len() == 0 {
        assert(a + b =~= a);
    } else {
        lemma_spinners_add(a, b.drop_last(), stem);
        assert((a + b).drop_last() =~= a + b.drop_last());
    }
}

/// Stopping everything finishes one spinner of each derivation.
proof fn lemma_all_stopped(active: Seq<Seq<char>>, success: bool, stem: Seq<char>)
    requires
        active.no_duplicates(),
    ensures
        spinners(all_stopped(active, success), stem) == if active.contains(stem) {
            -1int
        } else {
            0
        },
    decreases active.len(),
{
    let all = all_stopped(active, success);
    if active.len() > 0 {
        let front = active.drop_last();
        assert(front.no_duplicates());
        lemma_all_stopped(front, success, stem);
        assert(all.drop_last() =~= all_stopped(front, success));
        assert(all.last() == stop(active.last(), success));
        assert(active =~= front.push(active.last()));
        if front.contains(stem) {
            let i = choose|i: int| 0 <= i < front.len() && front[i] == stem;
            assert(active[i] == stem);
            assert(active[active.len() - 1] != stem);
        } else if active.contains(stem) {
            let i = choose|i: int| 0 <= i < active.len() && active[i] == stem;
            if i < front.len() {
                assert(front[i] == stem);
            }
        }
        if active.last() == stem {
            assert(active[active.len() - 1] == stem);
        }
    }
}

/// Ending a derivation keeps the model valid.
proof fn lemma_without_valid(m: LogModel, stem: Seq<char>)
    requires
        m.valid(),
        m.active.contains(stem),
    ensures
        m.without(stem).valid(),
{
    let n = m.without(stem);
    let i = m.active.index_of(stem);
    assert forall|j: int, k: int|
        0 <= j < n.active.len() && 0 <= k < n.active.len() && j != k implies n.active[j]
        != n.active[k] by {
        let a = if j < i {
            j
        } else {
            j + 1
        };
        let b = if k < i {
            k
        } else {
            k + 1
        };
        assert(m.active[a] != m.active[b]);
    }
    assert forall|p: Seq<char>| #[trigger] n.stems.contains_key(p) implies n.active.contains(
        n.stems[p],
    ) by {
        assert(m.stems.contains_key(p));
        let j = choose|j: int| 0 <= j < m.active.len() && m.active[j] == m.stems[p];
        if j < i {
            assert(n.active[j] == m.stems[p]);
        } else {
            assert(n.active[j - 1] == m.stems[p]);
        }
    }
}

/// Starting a derivation keeps the model valid.
proof fn lemma_with_valid(m: LogModel, stem: Seq<char>)
    requires
        m.valid(),
        !m.active.contains(stem),
    ensures
        m.with(stem).valid(),
{
    let n = m.with(stem);
    assert forall|p: Seq<char>| #[trigger] n.stems.contains_key(p) implies n.active.contains(
        n.stems[p],
    ) by {
        if p == prefix_of(stem) {
            assert(n.active[m.active.len() as int] == stem);
        } else {
            assert(m.stems.contains_key(p));
            let j = choose|j: int| 0 <= j < m.active.len() && m.active[j] == m.stems[p];
            assert(n.active[j] == m.stems[p]);
        }
    }
}

/// Law: the prefix of a name with a version is what stands before the hyphen of the
/// version, and the prefix of a name without one is all of it.
pub proof fn law_names_with_and_without_a_version(name: Seq<char>, d: char, rest: Seq<char>)
    requires
        forall|k: int|
            0 <= k && k + 1 < name.len() ==> !(#[trigger] name[k] == '-' && '0' <= name[k + 1]
                <= '9'),
        '0' <= d <= '9',
    ensures
        prefix_of(name + seq!['-', d] + rest) == name,
        prefix_of(name) == name,
{
    let stem = name + seq!['-', d] + rest;
    let n = name.len() as int;
    law_the_prefix_ends_before_the_version(stem);
    law_the_prefix_ends_before_the_version(name);
    let p = prefix_of(stem).len() as int;
    assert(stem[n] == '-' && stem[n + 1] == d);
    assert(version_at(stem, n));
    if p < n {
        assert(version_at(stem, p));
        assert(stem[p] == name[p]);
        if p + 1 < n {
            assert(stem[p + 1] == name[p + 1]);
        }
    }
    assert(stem.take(n) =~= name);
    let q = prefix_of(name).len() as int;
    if q < n {
        assert(version_at(name, q));
        assert(name[q] == '-');
    }
    assert(name.take(n) =~= name);
}

/// Law: a derivation that starts takes its own prefix, and every other prefix stands
/// for what it stood for.
pub proof fn law_other_prefixes_stay(m: LogModel, stem: Seq<char>, p: Seq<char>)
    requires
        p != prefix_of(stem),
    ensures
        ({
            let n = logged(m, LogLineView::Building(stem)).0;
            &&& n.stems.contains_key(p) <==> m.stems.contains_key(p)
            &&& m.stems.contains_key(p) ==> n.stems[p] == m.stems[p]
        }),
{
}

/// Law: a derivation that fails takes the prefixes that stand for it away, and every
/// other prefix stands for what it stood for.
pub proof fn law_a_failure_takes_its_prefixes(m: LogModel, stem: Seq<char>, p: Seq<char>)
    requires
        m.valid(),
        m.active.contains(stem),
    ensures
        ({
            let n = logged(m, LogLineView::Failed(stem)).0;
            &&& n.stems.contains_key(p) <==> m.stems.contains_key(p) && m.stems[p] != stem
            &&& n.stems.contains_key(p) ==> n.stems[p] == m.stems[p]
        }),
{
}

/// Law: a line starts or ends the derivation that it names, and no other; all others are
/// being built as before.
pub proof fn law_what_is_being_built(m: LogModel, line: LogLineView, stem: Seq<char>)
    requires
        m.valid(),
    ensures
        ({
            let n = logged(m, line).0;
            n.active.contains(stem) <==> (m.active.contains(stem) && line != LogLineView::Failed(
                stem,
            )) || line == LogLineView::Building(stem)
        }),
{
    let n = logged(m, line).0;
    match line {
        LogLineView::Building(s) => {
            if !m.active.contains(s) {
                assert(n.active[m.active.len() as int] == s);
                if m.active.contains(stem) {
                    let k = choose|k: int| 0 <= k < m.active.len() && m.active[k] == stem;
                    assert(n.active[k] == stem);
                }
            }
        },
        LogLineView::Failed(s) => {
            if m.active.contains(s) {
                lemma_without(m, s, stem);
            }
        },
        _ => {},
    }
}

/// Whether none of these lines ends a derivation or takes its prefix.
pub open spec fn leave_alone(lines: Seq<LogLineView>, stem: Seq<char>) -> bool {
    forall|i: int|
        0 <= i < lines.len() ==> match #[trigger] lines[i] {
            LogLineView::Building(other) => other == stem || prefix_of(other) != prefix_of(stem),
            LogLineView::Failed(other) => other != stem,
            _ => true,
        }
}

/// Law: from its start on, a derivation is shown the messages under its prefix, whatever
/// the lines between say of others, until it fails or a later one takes its prefix. A
/// message that looks like an error is printed too.
pub proof fn law_messages_stay_with_their_derivation(
    m: LogModel,
    stem: Seq<char>,
    lines: Seq<LogLineView>,
    text: Seq<char>,
)
    requires
        m.valid(),
        !m.active.contains(stem),
        leave_alone(lines, stem),
    ensures
        ({
            let n = replay(logged(m, LogLineView::Building(stem)).0, lines).0;
            let shown = UiView::SpinnerMessage {
                stem,
                message: seq![
                    span(Style::Cyan, stem),
                    span(Style::Plain, ": "@),
                    span(Style::Dimmed, text),
                ],
            };
            let printed = UiView::PrintAbove(
                seq![
                    span(Style::Plain, "  "@),
                    span(Style::Red, stem),
                    span(Style::Plain, " "@),
                    span(Style::Dimmed, "│"@),
                    span(Style::Plain, " "@),
                    span(Style::RedDimmed, text),
                ],
            );
            let prefix = prefix_of(stem);
            &&& logged(n, LogLineView::Message { prefix, text, error: false }) == (n, seq![shown])
            &&& logged(n, LogLineView::Message { prefix, text, error: true }) == (
                n,
                seq![shown, printed],
            )
        }),
{
    let first = logged(m, LogLineView::Building(stem)).0;
    law_log_stays_valid(m, LogLineView::Building(stem));
    assert(first.active[m.active.len() as int] == stem);
    lemma_still_its_own(first, stem, lines);
}

/// A derivation keeps its prefix over lines that leave it alone.
proof fn lemma_still_its_own(m: LogModel, stem: Seq<char>, lines: Seq<LogLineView>)
    requires
        m.valid(),
        m.active.contains(stem),
        m.stems.contains_key(prefix_of(stem)),
        m.stems[prefix_of(stem)] == stem,
        leave_alone(lines, stem),
    ensures
        ({
            let n = replay(m, lines).0;
            &&& n.valid()
            &&& n.active.contains(stem)
            &&& n.stems.contains_key(prefix_of(stem))
            &&& n.stems[prefix_of(stem)] == stem
        }),
    decreases lines.len(),
{
    if lines.len() > 0 {
        let front = lines.drop_last();
        assert(leave_alone(front, stem)) by {
            assert forall|i: int| 0 <= i < front.len() implies match #[trigger] front[i] {
                LogLineView::Building(other) => other == stem || prefix_of(other) != prefix_of(
                    stem,
                ),
                LogLineView::Failed(other) => other != stem,
                _ => true,
            } by {
                assert(front[i] == lines[i]);
            }
        }
        lemma_still_its_own(m, stem, front);
        let n = replay(m, front).0;
        let line = lines[lines.len() - 1];
        law_log_stays_valid(n, line);
        law_what_is_being_built(n, line, stem);
    }
}

/// Law: what a line shows, of whatever it says.
pub proof fn law_what_a_line_shows(m: LogModel, stem: Seq<char>, text: Seq<char>, n: u64)
    requires
        m.valid(),
    ensures
        logged(m, LogLineView::Quiet) == (m, Seq::<UiView>::empty()),
        logged(m, LogLineView::Total(Some(n))) == (m, seq![UiView::SetLength(n)]),
        logged(m, LogLineView::Total(None)) == (m, Seq::<UiView>::empty()),
        logged(m, LogLineView::Other(text)) == (
            m,
            seq![UiView::PrintAbove(seq![span(Style::Plain, "  "@), span(Style::Dimmed, text)])],
        ),
        m.active.contains(stem) ==> logged(m, LogLineView::Building(stem)) == (
            m,
            Seq::<UiView>::empty(),
        ),
        !m.active.contains(stem) ==> logged(m, LogLineView::Building(stem)).1 == seq![
            UiView::Advance,
            UiView::MainMessage(
                seq![
                    span(Style::Plain, "Forging "@),
                    span(Style::BrightBlue, stem),
                    span(Style::Plain, "..."@),
                ],
            ),
            UiView::AddSpinner { stem, message: seq![span(Style::Cyan, stem)] },
        ],
        !m.active.contains(stem) ==> logged(m, LogLineView::Failed(stem)) == (
            m,
            Seq::<UiView>::empty(),
        ),
        m.active.contains(stem) ==> logged(m, LogLineView::Failed(stem)).1 == seq![
            UiView::FinishSpinner {
                stem,
                message: seq![
                    span(Style::RedBold, "✘"@),
                    span(Style::Plain, " "@),
                    span(Style::Red, "Failed:"@),
                    span(Style::Plain, " "@),
                    span(Style::RedBold, stem),
                ],
            },
        ],
{
}

/// Law: a message under a prefix that stands for nothing shows nothing.
pub proof fn law_a_message_of_nobody(m: LogModel, prefix: Seq<char>, text: Seq<char>, error: bool)
    requires
        !m.stems.contains_key(prefix),
    ensures
        logged(m, LogLineView::Message { prefix, text, error }) == (m, Seq::<UiView>::empty()),
{
}

/// Law: at the end of a build every derivation that is being built is marked as done or
/// as failed, in the order in which they started; then the main bar goes, and success is
/// told.
pub proof fn law_what_the_end_shows(m: LogModel, k: int)
    requires
        0 <= k < m.active.len(),
    ensures
        ({
            let n = m.active.len() as int;
            let stem = m.active[k];
            &&& finished(m).len() == n + 2
            &&& finished(m)[k] == UiView::FinishSpinner {
                stem,
                message: seq![
                    span(Style::Green, "✔"@),
                    span(Style::Plain, " "@),
                    span(Style::Dimmed, stem),
                ],
            }
            &&& aborted(m).len() == n + 1
            &&& aborted(m)[k] == UiView::FinishSpinner {
                stem,
                message: seq![
                    span(Style::RedBold, "✘"@),
                    span(Style::Plain, " "@),
                    span(Style::Red, "Failed:"@),
                    span(Style::Plain, " "@),
                    span(Style::RedBold, stem),
                ],
            }
        }),
{
}

/// Law: what comes after the spinners at the end of a build.
pub proof fn law_what_the_end_shows_last(m: LogModel)
    ensures
        finished(m).skip(m.active.len() as int) == seq![
            UiView::ClearMain,
            UiView::Print(
                seq![
                    span(Style::Plain, "✨ "@),
                    span(Style::BrightWhiteBold, "System solidified."@),
                ],
            ),
        ],
        aborted(m).skip(m.active.len() as int) == seq![UiView::ClearMain],
{
    assert(finished(m).skip(m.active.len() as int) =~= seq![
        UiView::ClearMain,
        UiView::Print(
            seq![
                span(Style::Plain, "✨ "@),
                span(Style::BrightWhiteBold, "System solidified."@),
            ],
        ),
    ]);
    assert(aborted(m).skip(m.active.len() as int) =~= seq![UiView::ClearMain]);
}

/// Law: a derivation that is ended on its own is marked as done or as failed.
pub proof fn law_what_one_end_shows(m: LogModel, stem: Seq<char>)
    ensures
        !m.active.contains(stem) ==> finalized(m, stem, true) == (m, Seq::<UiView>::empty()),
        m.active.contains(stem) ==> finalized(m, stem, true).1 == seq![
            UiView::FinishSpinner {
                stem,
                message: seq![
                    span(Style::Green, "✔"@),
                    span(Style::Plain, " "@),
                    span(Style::Dimmed, stem),
                ],
            },
        ],
        finalized(m, stem, false) == logged(m, LogLineView::Failed(stem)),
        finalized(m, stem, true).0 == finalized(m, stem, false).0,
{
}

/// Law: before anything is read nothing is being built, and no prefix stands for anything.
pub proof fn law_nothing_is_built_at_first(stem: Seq<char>)
    ensures
        LogModel::idle().valid(),
        !LogModel::idle().active.contains(stem),
        !LogModel::idle().stems.contains_key(stem),
{
}

} // verus!
