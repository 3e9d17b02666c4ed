//! Regular expressions, compiled and matched by the `regex` crate.
//!
//! What the crate computes (whether a pattern compiles, whether it matches a
//! text, the names of its groups, the text a group captured) is named here by
//! spec functions of the pattern, its flags and the text. A compiled regex and
//! a set of captures carry, as ghost state, the pattern, flags and text they
//! come from, so that the names can be applied to them.
use vstd::prelude::*;

verus! {

#[verifier::external_type_specification]
#[verifier::external_body]
pub struct ExRegex(regex::Regex);

#[verifier::external_type_specification]
#[verifier::external_body]
pub struct ExCaptures<'h>(regex::Captures<'h>);

/// Whether the `regex` crate compiles `pattern` with the given flags.
pub uninterp spec fn regex_compiles(pattern: Seq<char>, case_insensitive: bool, dot_matches_new_line: bool) -> bool;

/// Whether the regex compiled from `pattern` with the given flags matches
/// somewhere in `text`.
pub uninterp spec fn regex_matches(pattern: Seq<char>, case_insensitive: bool, dot_matches_new_line: bool, text: Seq<char>) -> bool;

/// The names of the groups of the regex compiled from `pattern` with the given
/// flags, in order, `None` for a group without a name.
pub uninterp spec fn regex_names(pattern: Seq<char>, case_insensitive: bool, dot_matches_new_line: bool) -> Seq<Option<Seq<char>>>;

/// The text that the group called `group` captured in the first match of the
/// regex compiled from `pattern` with the given flags in `text`, or `None`
/// where the group did not take part in that match.
pub uninterp spec fn regex_group(
    pattern: Seq<char>,
    case_insensitive: bool,
    dot_matches_new_line: bool,
    text: Seq<char>,
    group: Seq<char>,
) -> Option<Seq<char>>;

/// A regex compiled by the `regex` crate, with the pattern and flags it was
/// compiled from.
pub struct CompiledRegex {
    re: regex::Regex,
    pattern: Ghost<Seq<char>>,
    case_insensitive: Ghost<bool>,
    dot_matches_new_line: Ghost<bool>,
}

impl CompiledRegex {
    /// The pattern the regex was compiled from.
    pub closed spec fn pattern(&self) -> Seq<char> {
        self.pattern@
    }

    /// Whether it was compiled to match in any letter case.
    pub closed spec fn is_case_insensitive(&self) -> bool {
        self.case_insensitive@
    }

    /// Whether it was compiled with `.` matching line breaks.
    pub closed spec fn dot_matches_line_breaks(&self) -> bool {
        self.dot_matches_new_line@
    }
}

/// The first match of a compiled regex in a text, with its groups, and the
/// pattern, flags and text it comes from.
pub struct CaptureSet<'h> {
    caps: regex::Captures<'h>,
    pattern: Ghost<Seq<char>>,
    case_insensitive: Ghost<bool>,
    dot_matches_new_line: Ghost<bool>,
    text: Ghost<Seq<char>>,
}

impl<'h> CaptureSet<'h> {
    /// The pattern of the regex that matched.
    pub closed spec fn pattern(&self) -> Seq<char> {
        self.pattern@
    }

    /// Whether that regex matches in any letter case.
    pub closed spec fn is_case_insensitive(&self) -> bool {
        self.case_insensitive@
    }

    /// Whether that regex has `.` matching line breaks.
    pub closed spec fn dot_matches_line_breaks(&self) -> bool {
        self.dot_matches_new_line@
    }

    /// The text that was matched.
    pub closed spec fn text(&self) -> Seq<char> {
        self.text@
    }
}

/// `RegexBuilder::new(pattern).case_insensitive(..).dot_matches_new_line(..).build()`,
/// with the error dropped. (`Regex::new(p)` is documented as this builder with
/// both flags off.) The contract claims that compilation succeeds exactly when
/// [`regex_compiles`] holds of the pattern and flags; the regex given back
/// records them.
#[verifier::external_body]
pub(crate) fn compile_regex(pattern: &str, case_insensitive: bool, dot_matches_new_line: bool) -> (res: Option<CompiledRegex>)
    ensures
        res is Some <==> regex_compiles(pattern@, case_insensitive, dot_matches_new_line),
        res matches Some(r) ==> {
            &&& r.pattern() == pattern@
            &&& r.is_case_insensitive() == case_insensitive
            &&& r.dot_matches_line_breaks() == dot_matches_new_line
        },
{
    match regex::RegexBuilder::new(pattern)
        .case_insensitive(case_insensitive)
        .dot_matches_new_line(dot_matches_new_line)
        .build()
    {
        Ok(re) => Some(CompiledRegex {
            re,
            pattern: Ghost(pattern@),
            case_insensitive: Ghost(case_insensitive),
            dot_matches_new_line: Ghost(dot_matches_new_line),
        }),
        Err(_) => None,
    }
}

/// `Regex::captures`: the first match of `re` in `text` with its groups. The
/// contract claims that there is one exactly when [`regex_matches`] holds of
/// the regex's pattern and flags and the text; the captures given back record
/// them.
#[verifier::external_body]
pub(crate) fn regex_captures<'h>(re: &CompiledRegex, text: &'h str) -> (res: Option<CaptureSet<'h>>)
    ensures
        res is Some <==> regex_matches(re.pattern(), re.is_case_insensitive(), re.dot_matches_line_breaks(), text@),
        res matches Some(c) ==> {
            &&& c.pattern() == re.pattern()
            &&& c.is_case_insensitive() == re.is_case_insensitive()
            &&& c.dot_matches_line_breaks() == re.dot_matches_line_breaks()
            &&& c.text() == text@
        },
{
    match re.re.captures(text) {
        Some(caps) => Some(CaptureSet {
            caps,
            pattern: Ghost(re.pattern@),
            case_insensitive: Ghost(re.case_insensitive@),
            dot_matches_new_line: Ghost(re.dot_matches_new_line@),
            text: Ghost(text@),
        }),
        None => None,
    }
}

/// The texts of a list of optional strings.
pub open spec fn option_texts(v: Seq<Option<String>>) -> Seq<Option<Seq<char>>> {
    Seq::new(v.len(), |i: int| match v[i] { Some(s) => Some(s@), None => None })
}

/// `Regex::capture_names`, collected: one entry per group, `None` for an
/// unnamed group. The contract claims that the names are [`regex_names`] of
/// the regex's pattern and flags, and what the crate documents of every regex:
/// the first entry is the implicit whole-match group, which has no name.
#[verifier::external_body]
pub(crate) fn regex_group_names(re: &CompiledRegex) -> (res: Vec<Option<String>>)
    ensures
        option_texts(res@) == regex_names(re.pattern(), re.is_case_insensitive(), re.dot_matches_line_breaks()),
        res@.len() >= 1,
        res@[0] is None,
{
    re.re.capture_names().map(|n| n.map(|s| s.to_string())).collect()
}

/// `Captures::name` followed by `Match::as_str`: the text that the group called
/// `name` matched, if it took part in the match. The contract claims that this
/// is [`regex_group`] of the pattern, flags and text the captures come from.
#[verifier::external_body]
pub(crate) fn capture_text(caps: &CaptureSet, name: &str) -> (res: Option<String>)
    ensures
        (match res { Some(s) => Some(s@), None => None }) == regex_group(
            caps.pattern(),
            caps.is_case_insensitive(),
            caps.dot_matches_line_breaks(),
            caps.text(),
            name@,
        ),
{
    caps.caps.name(name).map(|m| m.as_str().to_string())
}

} // verus!
