//! The forms of a line in the build log, as regular expressions tell them apart.

use vstd::prelude::*;

use crate::text::{
    ascii, ascii_lower, ascii_upper, contains, decimal, holds, law_found_where_it_stands, law_numbers_are_read_as_written,
    law_small_letters_forget_the_case, law_trimming_twice, lowercase, number_of, occurs_at, parse_u64, starts_with, trim, trimmed,
};

verus! {

/// A compiled regular expression.
#[verifier::external_type_specification]
#[verifier::external_body]
pub struct ExRegex(regex::Regex);

/// Why a regular expression was refused.
#[verifier::external_type_specification]
#[verifier::external_body]
pub struct ExRegexError(regex::Error);

/// What `Regex::as_str` gives: the pattern from which `re` was compiled.
pub uninterp spec fn regex_source(re: regex::Regex) -> Seq<char>;

/// Whether `Regex::new` accepts the pattern.
pub uninterp spec fn regex_accepts(pattern: Seq<char>) -> bool;

/// What `Regex::is_match` gives for a regular expression of this pattern.
pub uninterp spec fn regex_is_match(pattern: Seq<char>, text: Seq<char>) -> bool;

/// What `Regex::captures` gives for a regular expression of this pattern: the
/// text of each group, the whole match first, where the group took part.
pub uninterp spec fn regex_captures(pattern: Seq<char>, text: Seq<char>) -> Option<
    Seq<Option<Seq<char>>>,
>;

/// Calls `regex::Regex::new`. Whether the pattern is accepted depends on the
/// pattern alone, and the regular expression keeps it.
#[verifier::external_body]
fn compile(pattern: &str) -> (r: Result<regex::Regex, regex::Error>)
    ensures
        r is Ok <==> regex_accepts(pattern@),
        r matches Ok(re) ==> regex_source(re) == pattern@,
{
    regex::Regex::new(pattern)
}

/// Calls `regex::Regex::is_match`, whose result depends on the pattern and on
/// the text alone.
#[verifier::external_body]
fn is_match(re: &regex::Regex, text: &str) -> (r: bool)
    ensures
        r == regex_is_match(regex_source(*re), text@),
{
    re.is_match(text)
}

/// Calls `regex::Regex::captures` and copies the text of each group, in order.
/// The result depends on the pattern and on the text alone.
#[verifier::external_body]
fn captures(re: &regex::Regex, text: &str) -> (r: Option<Vec<Option<String>>>)
    ensures
        r.deep_view() == regex_captures(regex_source(*re), text@),
{
    re.captures(text).map(|c| c.iter().map(|g| g.map(|m| m.as_str().to_string())).collect())
}

/// The line that announces how many derivations will be built.
pub const TOTAL: &'static str = r"these (\d+) derivations? will be built";

/// The line that says that a derivation is being built.
pub const BUILDING: &'static str = r"^building '/nix/store/[a-z0-9]+-(.+?)\.drv'\.\.\.$";

/// A line that only names a store path.
pub const STORE_PATH: &'static str = r"^\s*/nix/store/[a-z0-9]{32}";

/// The line that says that a derivation failed.
pub const BUILD_FAILED: &'static str = r"error: build of '/nix/store/[a-z0-9]+-(.+?)\.drv' failed";

/// A line of the log of one derivation, with its name before it.
pub const LOG_PREFIX: &'static str = r"^([\w.+\-]+)>(?:\s(.*))?$";

/// What a line of the build log says.
#[derive(Debug)]
pub enum LogLine {
    /// Nothing to show.
    Quiet,
    /// The number of derivations to build, where it can be read.
    Total(Option<u64>),
    /// The derivation with this stem is being built.
    Building(String),
    /// The derivation with this stem failed.
    Failed(String),
    /// A line of the log of the derivation with this prefix.
    Message { prefix: String, text: String, error: bool },
    /// Any other line.
    Other(String),
}

/// The value of a `LogLine`.
pub enum LogLineView {
    Quiet,
    Total(Option<u64>),
    Building(Seq<char>),
    Failed(Seq<char>),
    Message { prefix: Seq<char>, text: Seq<char>, error: bool },
    Other(Seq<char>),
}

impl DeepView for LogLine {
    type V = LogLineView;

    open spec fn deep_view(&self) -> LogLineView {
        match self {
            LogLine::Quiet => LogLineView::Quiet,
            LogLine::Total(n) => LogLineView::Total(*n),
            LogLine::Building(s) => LogLineView::Building(s@),
            LogLine::Failed(s) => LogLineView::Failed(s@),
            LogLine::Message { prefix, text, error } => LogLineView::Message {
                prefix: prefix@,
                text: text@,
                error: *error,
            },
            LogLine::Other(s) => LogLineView::Other(s@),
        }
    }
}

/// What the five regular expressions found in a line: whether it names a store
/// path, and the groups that each of the others captured.
#[derive(Debug)]
pub struct Found {
    pub store_path: bool,
    pub total: Option<Vec<Option<String>>>,
    pub building: Option<Vec<Option<String>>>,
    pub failed: Option<Vec<Option<String>>>,
    pub prefixed: Option<Vec<Option<String>>>,
}

/// The value of a `Found`.
#[verifier::ext_equal]
pub struct FoundView {
    pub store_path: bool,
    pub total: Option<Seq<Option<Seq<char>>>>,
    pub building: Option<Seq<Option<Seq<char>>>>,
    pub failed: Option<Seq<Option<Seq<char>>>>,
    pub prefixed: Option<Seq<Option<Seq<char>>>>,
}

impl DeepView for Found {
    type V = FoundView;

    open spec fn deep_view(&self) -> FoundView {
        FoundView {
            store_path: self.store_path,
            total: self.total.deep_view(),
            building: self.building.deep_view(),
            failed: self.failed.deep_view(),
            prefixed: self.prefixed.deep_view(),
        }
    }
}

/// The text of group `i`, where the group took part in the match.
pub open spec fn group_of(groups: Seq<Option<Seq<char>>>, i: int) -> Option<Seq<char>> {
    if 0 <= i < groups.len() {
        groups[i]
    } else {
        None
    }
}

/// The text of an optional group, or `default`.
pub open spec fn text_or(group: Option<Seq<char>>, default: Seq<char>) -> Seq<char> {
    match group {
        Some(text) => text,
        None => default,
    }
}

/// The count that a group writes, where it fits a 64-bit number.
pub open spec fn count_of(group: Option<Seq<char>>) -> Option<u64> {
    match group {
        Some(text) => match number_of(text) {
            Some(n) => if n <= u64::MAX {
                Some(n as u64)
            } else {
                None
            },
            None => None,
        },
        None => None,
    }
}

/// What a trimmed line says, given what was found in it. The first form that
/// fits counts.
pub open spec fn line_says(line: Seq<char>, found: FoundView) -> LogLineView {
    if line.len() == 0 || found.store_path {
        LogLineView::Quiet
    } else if found.total is Some {
        LogLineView::Total(count_of(group_of(found.total->0, 1)))
    } else if found.building is Some {
        LogLineView::Building(text_or(group_of(found.building->0, 1), "unknown"@))
    } else if found.failed is Some {
        LogLineView::Failed(text_or(group_of(found.failed->0, 1), "unknown"@))
    } else if found.prefixed is Some {
        let prefix = trimmed(text_or(group_of(found.prefixed->0, 1), Seq::empty()));
        let text = trimmed(text_or(group_of(found.prefixed->0, 2), Seq::empty()));
        if text.len() == 0 {
            LogLineView::Quiet
        } else {
            LogLineView::Message { prefix, text, error: error_text(lowercase(text)) }
        }
    } else {
        LogLineView::Other(line)
    }
}

/// What the regular expressions find in a trimmed line.
pub open spec fn found_in(line: Seq<char>) -> FoundView {
    FoundView {
        store_path: regex_is_match(STORE_PATH@, line),
        total: regex_captures(TOTAL@, line),
        building: regex_captures(BUILDING@, line),
        failed: regex_captures(BUILD_FAILED@, line),
        prefixed: regex_captures(LOG_PREFIX@, line),
    }
}

/// What a line of the build log says.
pub open spec fn log_line(line: Seq<char>) -> LogLineView {
    line_says(trimmed(line), found_in(trimmed(line)))
}

/// Whether a message in lower case looks like an error.
pub open spec fn error_text(lower: Seq<char>) -> bool {
    ||| occurs_at(lower, "error"@, 0)
    ||| occurs_at(lower, "fatal error"@, 0)
    ||| occurs_at(lower, "ld: "@, 0)
    ||| holds(lower, ": error:"@)
    ||| holds(lower, ": fatal error:"@)
    ||| holds(lower, "error[e"@)
    ||| occurs_at(lower, "make["@, 0)
    ||| occurs_at(lower, "cmake error"@, 0)
    ||| occurs_at(lower, "traceback"@, 0)
    ||| occurs_at(lower, "panicked at"@, 0)
}

/// Whether a message in lower case looks like an error.
pub fn lower_looks_like_error(lower: &str) -> (r: bool)
    ensures
        r == error_text(lower@),
{
    starts_with(lower, "error") || starts_with(lower, "fatal error") || starts_with(lower, "ld: ")
        || contains(lower, ": error:") || contains(lower, ": fatal error:") || contains(
        lower,
        "error[e",
    ) || starts_with(lower, "make[") || starts_with(lower, "cmake error") || starts_with(
        lower,
        "traceback",
    ) || starts_with(lower, "panicked at")
}

/// Whether a message looks like an error, in whatever case it is written.
pub fn looks_like_error(s: &str) -> (r: bool)
    ensures
        r == error_text(lowercase(s@)),
        ascii(s@) ==> r == error_text(ascii_lower(s@)),
{
    lower_looks_like_error(s.to_lowercase().as_str())
}

/// The text of group `i`, or `default` where the group took no part.
fn group_text(groups: &Vec<Option<String>>, i: usize, default: &str) -> (r: String)
    ensures
        r@ == text_or(group_of(groups.deep_view(), i as int), default@),
{
    if i < groups.len() {
        assert(groups.deep_view()[i as int] == groups@[i as int].deep_view());
        match &groups[i] {
            Some(text) => text.clone(),
            None => default.to_string(),
        }
    } else {
        default.to_string()
    }
}

/// The count that group 1 writes.
fn group_count(groups: &Vec<Option<String>>) -> (r: Option<u64>)
    ensures
        r == count_of(group_of(groups.deep_view(), 1)),
{
    if groups.len() > 1 {
        assert(groups.deep_view()[1] == groups@[1].deep_view());
        match &groups[1] {
            Some(text) => parse_u64(text.as_str()),
            None => None,
        }
    } else {
        None
    }
}

/// What a trimmed line says, given what the regular expressions found in it.
pub fn classify(line: &str, found: &Found) -> (r: LogLine)
    ensures
        r.deep_view() == line_says(line@, found.deep_view()),
        r.deep_view() matches LogLineView::Message { prefix, text, error } ==> (ascii(text)
            ==> error == error_text(ascii_lower(text))),
{
    if line.is_empty() || found.store_path {
        return LogLine::Quiet;
    }
    if let Some(groups) = &found.total {
        return LogLine::Total(group_count(groups));
    }
    if let Some(groups) = &found.building {
        return LogLine::Building(group_text(groups, 1, "unknown"));
    }
    if let Some(groups) = &found.failed {
        return LogLine::Failed(group_text(groups, 1, "unknown"));
    }
    if let Some(groups) = &found.prefixed {
        proof {
            reveal_strlit("");
            assert(""@ =~= Seq::<char>::empty());
        }
        let prefix = trim(group_text(groups, 1, "").as_str());
        let text = trim(group_text(groups, 2, "").as_str());
        if text.as_str().is_empty() {
            return LogLine::Quiet;
        }
        let error = looks_like_error(text.as_str());
        return LogLine::Message { prefix, text, error };
    }
    LogLine::Other(line.to_string())
}

/// The five regular expressions, compiled.
pub struct Patterns {
    total: regex::Regex,
    building: regex::Regex,
    store_path: regex::Regex,
    failed: regex::Regex,
    prefixed: regex::Regex,
}

impl Patterns {
    /// Whether each field holds the regular expression that it is named for.
    pub closed spec fn well_formed(&self) -> bool {
        &&& regex_source(self.total) == TOTAL@
        &&& regex_source(self.building) == BUILDING@
        &&& regex_source(self.store_path) == STORE_PATH@
        &&& regex_source(self.failed) == BUILD_FAILED@
        &&& regex_source(self.prefixed) == LOG_PREFIX@
    }

    /// Compiles the five regular expressions. `None` where one is refused.
    pub fn new() -> (r: Option<Patterns>)
        ensures
            r is Some <==> patterns_accepted(),
            r matches Some(p) ==> p.well_formed(),
    {
        match (
            compile(TOTAL),
            compile(BUILDING),
            compile(STORE_PATH),
            compile(BUILD_FAILED),
            compile(LOG_PREFIX),
        ) {
            (Ok(total), Ok(building), Ok(store_path), Ok(failed), Ok(prefixed)) => Some(
                Patterns { total, building, store_path, failed, prefixed },
            ),
            _ => None,
        }
    }

    /// What the regular expressions find in a trimmed line.
    fn find(&self, line: &str) -> (r: Found)
        requires
            self.well_formed(),
        ensures
            r.deep_view() == found_in(line@),
    {
        Found {
            store_path: is_match(&self.store_path, line),
            total: captures(&self.total, line),
            building: captures(&self.building, line),
            failed: captures(&self.failed, line),
            prefixed: captures(&self.prefixed, line),
        }
    }

    /// What a line of the build log says.
    pub fn read(&self, line: &str) -> (r: LogLine)
        requires
            self.well_formed(),
        ensures
            r.deep_view() == log_line(line@),
            r.deep_view() matches LogLineView::Message { prefix, text, error } ==> (ascii(text)
                ==> error == error_text(ascii_lower(text))),
    {
        let line = trim(line);
        let found = self.find(line.as_str());
        classify(line.as_str(), &found)
    }
}

/// Whether the regex crate accepts all five patterns.
pub open spec fn patterns_accepted() -> bool {
    &&& regex_accepts(TOTAL@)
    &&& regex_accepts(BUILDING@)
    &&& regex_accepts(STORE_PATH@)
    &&& regex_accepts(BUILD_FAILED@)
    &&& regex_accepts(LOG_PREFIX@)
}

/// What stands in a text stands in a longer one.
proof fn lemma_occurs_in_more(s: Seq<char>, t: Seq<char>, pat: Seq<char>, i: int)
    requires
        occurs_at(s, pat, i),
    ensures
        occurs_at(s + t, pat, i),
{
    assert((s + t).subrange(i, i + pat.len()) =~= s.subrange(i, i + pat.len()));
}

/// What stands somewhere in a text stands somewhere in a longer one.
proof fn lemma_holds_in_more(s: Seq<char>, t: Seq<char>, pat: Seq<char>)
    ensures
        holds(s, pat) ==> holds(s + t, pat),
        occurs_at(s, pat, 0) ==> occurs_at(s + t, pat, 0),
{
    if holds(s, pat) {
        let i = choose|i: int| occurs_at(s, pat, i);
        lemma_occurs_in_more(s, t, pat, i);
    }
    if occurs_at(s, pat, 0) {
        lemma_occurs_in_more(s, t, pat, 0);
    }
}

/// Law: more text behind an error keeps it one.
pub proof fn law_more_text_keeps_an_error(lower: Seq<char>, more: Seq<char>)
    requires
        error_text(lower),
    ensures
        error_text(lower + more),
{
    lemma_holds_in_more(lower, more, "error"@);
    lemma_holds_in_more(lower, more, "fatal error"@);
    lemma_holds_in_more(lower, more, "ld: "@);
    lemma_holds_in_more(lower, more, ": error:"@);
    lemma_holds_in_more(lower, more, ": fatal error:"@);
    lemma_holds_in_more(lower, more, "error[e"@);
    lemma_holds_in_more(lower, more, "make["@);
    lemma_holds_in_more(lower, more, "cmake error"@);
    lemma_holds_in_more(lower, more, "traceback"@);
    lemma_holds_in_more(lower, more, "panicked at"@);
}

/// Law: of texts of ASCII, what looks like an error does so with any text behind it
/// and in any case.
pub proof fn law_errors_in_ascii(s: Seq<char>, t: Seq<char>)
    ensures
        error_text(ascii_lower(s)) ==> error_text(ascii_lower(s + t)),
        error_text(ascii_lower(ascii_upper(s))) == error_text(ascii_lower(s)),
        ascii(s) && ascii(t) ==> ascii(s + t) && ascii(ascii_upper(s)),
{
    assert(ascii_lower(s + t) =~= ascii_lower(s) + ascii_lower(t));
    if error_text(ascii_lower(s)) {
        law_more_text_keeps_an_error(ascii_lower(s), ascii_lower(t));
    }
    law_small_letters_forget_the_case(s);
}

/// Law: what starts with a sign of an error, or holds one anywhere, looks like an error.
pub proof fn law_signs_of_an_error(before: Seq<char>, after: Seq<char>)
    ensures
        error_text("error"@ + after),
        error_text("fatal error"@ + after),
        error_text("ld: "@ + after),
        error_text("make["@ + after),
        error_text("cmake error"@ + after),
        error_text("traceback"@ + after),
        error_text("panicked at"@ + after),
        error_text(before + ": error:"@ + after),
        error_text(before + ": fatal error:"@ + after),
        error_text(before + "error[e"@ + after),
{
    law_found_where_it_stands(before, "error"@, after);
    law_found_where_it_stands(before, "fatal error"@, after);
    law_found_where_it_stands(before, "ld: "@, after);
    law_found_where_it_stands(before, "make["@, after);
    law_found_where_it_stands(before, "cmake error"@, after);
    law_found_where_it_stands(before, "traceback"@, after);
    law_found_where_it_stands(before, "panicked at"@, after);
    law_found_where_it_stands(before, ": error:"@, after);
    law_found_where_it_stands(before, ": fatal error:"@, after);
    law_found_where_it_stands(before, "error[e"@, after);
}

/// Law: without any sign of an error a text does not look like one.
pub proof fn law_no_sign_of_an_error(lower: Seq<char>)
    requires
        !occurs_at(lower, "error"@, 0),
        !occurs_at(lower, "fatal error"@, 0),
        !occurs_at(lower, "ld: "@, 0),
        !occurs_at(lower, "make["@, 0),
        !occurs_at(lower, "cmake error"@, 0),
        !occurs_at(lower, "traceback"@, 0),
        !occurs_at(lower, "panicked at"@, 0),
        !holds(lower, ": error:"@),
        !holds(lower, ": fatal error:"@),
        !holds(lower, "error[e"@),
    ensures
        !error_text(lower),
{
}

/// Law: a line is looked at without the white space around it, by these regular
/// expressions.
pub proof fn law_what_is_looked_for(line: Seq<char>)
    ensures
        log_line(line) == line_says(trimmed(line), found_in(trimmed(line))),
        log_line(trimmed(line)) == log_line(line),
        found_in(line).store_path == regex_is_match(r"^\s*/nix/store/[a-z0-9]{32}"@, line),
        found_in(line).total == regex_captures(
            r"these (\d+) derivations? will be built"@,
            line,
        ),
        found_in(line).building == regex_captures(
            r"^building '/nix/store/[a-z0-9]+-(.+?)\.drv'\.\.\.$"@,
            line,
        ),
        found_in(line).failed == regex_captures(
            r"error: build of '/nix/store/[a-z0-9]+-(.+?)\.drv' failed"@,
            line,
        ),
        found_in(line).prefixed == regex_captures(r"^([\w.+\-]+)>(?:\s(.*))?$"@, line),
{
    law_trimming_twice(line);
}

/// Law: what a line says, by the first of the forms that it has: a store path, the number
/// of derivations, one that is being built, one that failed, a message of one.
pub proof fn law_what_a_line_says(line: Seq<char>, found: FoundView, n: u64)
    requires
        line.len() > 0,
        !found.store_path,
    ensures
        ({
            let said = line_says(line, found);
            let total = found.total;
            let building = found.building;
            let failed = found.failed;
            let prefixed = found.prefixed;
            &&& total matches Some(g) ==> said is Total && (g.len() > 1 && g[1] == Some(
                decimal(n as nat),
            ) ==> said == LogLineView::Total(Some(n))) && (g.len() <= 1 || g[1] is None ==> said
                == LogLineView::Total(None)) && (g.len() > 1 && g[1] is Some && (number_of(
                g[1]->0,
            ) is None || number_of(g[1]->0)->0 > u64::MAX) ==> said == LogLineView::Total(None))
            &&& total is None ==> (building matches Some(g) ==> said is Building && (g.len() > 1
                && g[1] is Some ==> said == LogLineView::Building(g[1]->0)) && (g.len() <= 1
                || g[1] is None ==> said == LogLineView::Building("unknown"@)))
            &&& total is None && building is None ==> (failed matches Some(g) ==> said is Failed
                && (g.len() > 1 && g[1] is Some ==> said == LogLineView::Failed(g[1]->0)) && (
            g.len() <= 1 || g[1] is None ==> said == LogLineView::Failed("unknown"@)))
            &&& total is None && building is None && failed is None ==> (prefixed matches Some(g)
                ==> (g.len() > 2 && g[1] is Some && g[2] is Some && trimmed(g[2]->0).len() > 0
                ==> said == LogLineView::Message {
                prefix: trimmed(g[1]->0),
                text: trimmed(g[2]->0),
                error: error_text(lowercase(trimmed(g[2]->0))),
            }) && (g.len() <= 2 || g[2] is None || trimmed(g[2]->0).len() == 0 ==> said
                == LogLineView::Quiet))
            &&& total is None && building is None && failed is None && prefixed is None ==> said
                == LogLineView::Other(line)
        }),
{
    law_numbers_are_read_as_written(n as nat);
}

/// Law: an empty line says nothing, and neither does a store path.
pub proof fn law_lines_that_say_nothing(line: Seq<char>, found: FoundView)
    requires
        line.len() == 0 || found.store_path,
    ensures
        line_says(line, found) == LogLineView::Quiet,
{
}

} // verus!
