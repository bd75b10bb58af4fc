//! The syntax highlighters of the `synoptic` crate, and what this library knows of them.
use crate::document::all_columns_fit;
use synoptic::{Atom, Highlighter, TokenRef};
use vstd::prelude::*;

verus! {

/// The highlighter type of `synoptic`.
#[verifier::external_type_specification]
#[verifier::external_body]
pub struct ExHighlighter(synoptic::Highlighter);

/// The type of an occurrence of a rule of `synoptic`.
#[verifier::external_type_specification]
#[verifier::external_body]
pub struct ExAtom(synoptic::Atom);

/// The type of a token of `synoptic`.
#[verifier::external_type_specification]
#[verifier::external_body]
pub struct ExTokenRef(synoptic::TokenRef);

/// What highlighting has found in some lines.
#[verifier::ext_equal]
pub struct Highlights {
    /// The occurrences of the rules, line by line.
    pub atoms: Seq<Seq<Atom>>,
    /// The tokens that they form.
    pub tokens: Seq<TokenRef>,
    /// The tokens that reach into each line.
    pub line_ref: Seq<Seq<usize>>,
}

/// What a highlighter holds.
#[verifier::ext_equal]
pub struct HighlighterView {
    /// The number of columns that a tab takes.
    pub tab_width: usize,
    /// The rules, in the order in which they were added.
    pub rules: Seq<RuleView>,
    /// What the last run has found.
    pub found: Highlights,
    /// Whether it has all that its rules refer to, as is the case unless its fields were written
    /// to from outside.
    pub intact: bool,
}

/// A rule of a highlighter. The patterns are regular expressions.
#[derive(Debug)]
pub enum Rule {
    /// A token within a line.
    Keyword {
        /// The name of the token.
        name: String,
        /// The pattern.
        pattern: String,
    },
    /// A token that may span lines.
    Bounded {
        /// The name of the token.
        name: String,
        /// The pattern of its start.
        start: String,
        /// The pattern of its end.
        end: String,
        /// Whether a backslash makes a start or an end an ordinary character.
        escapable: bool,
    },
    /// A token that may span lines and be interrupted.
    Interpolated {
        /// The name of the token.
        name: String,
        /// The pattern of its start.
        start: String,
        /// The pattern of its end.
        end: String,
        /// The pattern of the start of an interruption.
        pause: String,
        /// The pattern of the end of an interruption.
        resume: String,
        /// Whether a backslash makes a start or an end an ordinary character.
        escapable: bool,
    },
}

/// The characters of a [`Rule`].
pub enum RuleView {
    /// A token within a line.
    Keyword {
        /// The name of the token.
        name: Seq<char>,
        /// The pattern.
        pattern: Seq<char>,
    },
    /// A token that may span lines.
    Bounded {
        /// The name of the token.
        name: Seq<char>,
        /// The pattern of its start.
        start: Seq<char>,
        /// The pattern of its end.
        end: Seq<char>,
        /// Whether a backslash makes a start or an end an ordinary character.
        escapable: bool,
    },
    /// A token that may span lines and be interrupted.
    Interpolated {
        /// The name of the token.
        name: Seq<char>,
        /// The pattern of its start.
        start: Seq<char>,
        /// The pattern of its end.
        end: Seq<char>,
        /// The pattern of the start of an interruption.
        pause: Seq<char>,
        /// The pattern of the end of an interruption.
        resume: Seq<char>,
        /// Whether a backslash makes a start or an end an ordinary character.
        escapable: bool,
    },
}

impl Rule {
    /// The characters of the rule.
    pub open spec fn view(self) -> RuleView {
        match self {
            Rule::Keyword { name, pattern } => RuleView::Keyword {
                name: name@,
                pattern: pattern@,
            },
            Rule::Bounded { name, start, end, escapable } => RuleView::Bounded {
                name: name@,
                start: start@,
                end: end@,
                escapable,
            },
            Rule::Interpolated { name, start, end, pause, resume, escapable } => {
                RuleView::Interpolated {
                    name: name@,
                    start: start@,
                    end: end@,
                    pause: pause@,
                    resume: resume@,
                    escapable,
                }
            },
        }
    }
}

impl RuleView {
    /// Whether a highlighter takes the rule: all patterns are regular expressions, and those of
    /// the start and the end of an interruption differ.
    pub open spec fn valid(self) -> bool {
        match self {
            RuleView::Keyword { name, pattern } => is_regex(pattern),
            RuleView::Bounded { name, start, end, escapable } => is_regex(start) && is_regex(end),
            RuleView::Interpolated { name, start, end, pause, resume, escapable } => {
                &&& is_regex(start)
                &&& is_regex(end)
                &&& is_regex(pause)
                &&& is_regex(resume)
                &&& pause != resume
            },
        }
    }
}

impl Highlights {
    /// Nothing found in `rows` lines.
    pub open spec fn plain(rows: nat) -> Self {
        Highlights {
            atoms: Seq::new(rows, |i: int| Seq::<Atom>::empty()),
            tokens: Seq::empty(),
            line_ref: Seq::new(rows, |i: int| Seq::<usize>::empty()),
        }
    }
}

impl HighlighterView {
    /// A highlighter without rules that has not run.
    pub open spec fn fresh(tab_width: usize) -> Self {
        HighlighterView {
            tab_width,
            rules: Seq::empty(),
            found: Highlights::plain(0),
            intact: true,
        }
    }

    /// The highlighter with one more rule.
    pub open spec fn with_rule(self, rule: RuleView) -> Self {
        HighlighterView { rules: self.rules.push(rule), ..self }
    }

    /// Whether the highlighter is intact and a run over the lines stays within machine integers.
    pub open spec fn runs_on(self, lines: Seq<Seq<char>>) -> bool {
        self.intact && (self.rules.len() == 0 || all_columns_fit(lines, self.tab_width))
    }

    /// The highlighter after a run over the lines. Without rules it finds nothing.
    pub open spec fn after_run(self, lines: Seq<Seq<char>>) -> Self {
        HighlighterView {
            found: if self.rules.len() == 0 {
                Highlights::plain(lines.len())
            } else {
                highlighted(self.rules, self.tab_width, lines)
            },
            ..self
        }
    }
}

/// What the highlighter holds.
pub uninterp spec fn highlighter_view(highlighter: Highlighter) -> HighlighterView;

/// What a run of a highlighter with these rules and this tab width finds in the lines.
pub uninterp spec fn highlighted(
    rules: Seq<RuleView>,
    tab_width: usize,
    lines: Seq<Seq<char>>,
) -> Highlights;

/// Whether the pattern is a regular expression.
pub uninterp spec fn is_regex(pattern: Seq<char>) -> bool;

/// Calls `synoptic::Highlighter::new`. Trusted: the highlighter has no rules, has found nothing
/// and has the tab width that was asked for.
#[verifier::external_body]
pub(crate) fn new_highlighter(tab_width: usize) -> (highlighter: Highlighter)
    ensures
        highlighter_view(highlighter) == HighlighterView::fresh(tab_width),
{
    Highlighter::new(tab_width)
}

/// Calls `Regex::new`, which `synoptic` passes on from the `regex` crate. Trusted: whether it
/// succeeds depends on the pattern alone.
#[verifier::external_body]
fn compiles(pattern: &str) -> (compiles: bool)
    ensures
        compiles == is_regex(pattern@),
{
    synoptic::Regex::new(pattern).is_ok()
}

/// Calls `synoptic::Highlighter::keyword`. Trusted: the highlighter has one more rule. It stops
/// the program on a pattern that is no regular expression, so it has to be one.
#[verifier::external_body]
fn add_keyword(highlighter: &mut Highlighter, name: &str, pattern: &str)
    requires
        is_regex(pattern@),
    ensures
        highlighter_view(*final(highlighter)) == highlighter_view(*old(highlighter)).with_rule(
            (RuleView::Keyword { name: name@, pattern: pattern@ }),
        ),
{
    highlighter.keyword(name, pattern);
}

/// Calls `synoptic::Highlighter::bounded`. Trusted: the highlighter has one more rule. It stops
/// the program on a pattern that is no regular expression, so both have to be one.
#[verifier::external_body]
fn add_bounded(highlighter: &mut Highlighter, name: &str, start: &str, end: &str, escapable: bool)
    requires
        is_regex(start@),
        is_regex(end@),
    ensures
        highlighter_view(*final(highlighter)) == highlighter_view(*old(highlighter)).with_rule(
            (RuleView::Bounded { name: name@, start: start@, end: end@, escapable }),
        ),
{
    highlighter.bounded(name, start, end, escapable);
}

/// Calls `synoptic::Highlighter::bounded_interp`. Trusted: the highlighter has one more rule. It
/// stops the program on a pattern that is no regular expression, and on equal patterns for the
/// start and the end of an interruption.
#[verifier::external_body]
fn add_interpolated(
    highlighter: &mut Highlighter,
    name: &str,
    start: &str,
    end: &str,
    pause: &str,
    resume: &str,
    escapable: bool,
)
    requires
        is_regex(start@),
        is_regex(end@),
        is_regex(pause@),
        is_regex(resume@),
        pause@ != resume@,
    ensures
        highlighter_view(*final(highlighter)) == highlighter_view(*old(highlighter)).with_rule(
            (RuleView::Interpolated {
                name: name@,
                start: start@,
                end: end@,
                pause: pause@,
                resume: resume@,
                escapable,
            }),
        ),
{
    highlighter.bounded_interp(name, start, end, pause, resume, escapable);
}

/// Calls `synoptic::Highlighter::run`. Trusted: the run replaces what was found before, and what
/// it finds depends on the rules, the tab width and the lines alone; without rules it finds
/// nothing. It adds up the columns of each line for each rule, so they have to fit.
#[verifier::external_body]
pub(crate) fn run(highlighter: &mut Highlighter, lines: &Vec<String>)
    requires
        highlighter_view(*old(highlighter)).runs_on(lines.deep_view()),
    ensures
        highlighter_view(*final(highlighter)) == (HighlighterView {
            found: highlighted(
                highlighter_view(*old(highlighter)).rules,
                highlighter_view(*old(highlighter)).tab_width,
                lines.deep_view(),
            ),
            ..highlighter_view(*old(highlighter))
        }),
        highlighter_view(*old(highlighter)).rules.len() == 0 ==> highlighter_view(
            *final(highlighter),
        ).found == Highlights::plain(lines.len() as nat),
{
    highlighter.run(lines);
}

/// Reads the field `tab_width` of the highlighter.
#[verifier::external_body]
pub(crate) fn tab_width(highlighter: &Highlighter) -> (tab_width: usize)
    ensures
        tab_width == highlighter_view(*highlighter).tab_width,
{
    highlighter.tab_width
}

impl Rule {
    /// Adds the rule to the highlighter, if the highlighter takes it.
    pub fn add_to(&self, highlighter: &mut Highlighter) -> (added: bool)
        ensures
            added == self@.valid(),
            highlighter_view(*final(highlighter)) == if added {
                highlighter_view(*old(highlighter)).with_rule(self@)
            } else {
                highlighter_view(*old(highlighter))
            },
    {
        match self {
            Rule::Keyword { name, pattern } => {
                if !compiles(pattern.as_str()) {
                    return false;
                }
                add_keyword(highlighter, name.as_str(), pattern.as_str());
            },
            Rule::Bounded { name, start, end, escapable } => {
                if !compiles(start.as_str()) || !compiles(end.as_str()) {
                    return false;
                }
                add_bounded(highlighter, name.as_str(), start.as_str(), end.as_str(), *escapable);
            },
            Rule::Interpolated { name, start, end, pause, resume, escapable } => {
                if !compiles(start.as_str()) || !compiles(end.as_str()) {
                    return false;
                }
                if !compiles(pause.as_str()) || !compiles(resume.as_str()) || *pause == *resume {
                    return false;
                }
                add_interpolated(
                    highlighter,
                    name.as_str(),
                    start.as_str(),
                    end.as_str(),
                    pause.as_str(),
                    resume.as_str(),
                    *escapable,
                );
            },
        }
        true
    }
}

} // verus!
