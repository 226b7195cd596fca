//! Turning AutoCorrect's findings into editor diagnostics and quick fixes.
use vstd::prelude::*;
use crate::text::{concat2, concat3, string_of};

verus! {

/// How serious a finding of AutoCorrect is.
#[derive(PartialEq, Eq, Structural, Clone, Copy, Debug)]
pub enum LintSeverity {
    Pass,
    Error,
    Warning,
}

/// One finding of AutoCorrect: where (1-based line and column), the old text and the
/// suggested one.
pub struct LintLine {
    pub line: usize,
    pub col: usize,
    pub new: String,
    pub old: String,
    pub severity: LintSeverity,
}

/// Severity of an editor diagnostic.
#[derive(PartialEq, Eq, Structural, Clone, Copy, Debug)]
pub enum DiagnosticSeverity {
    Warning,
    Hint,
    Info,
}

/// A diagnostic with its quick fix: 0-based positions, the message, and the replacement.
pub struct LintDiagnostic {
    pub start_line: u32,
    pub start_col: u32,
    pub end_line: u32,
    pub end_col: u32,
    pub severity: DiagnosticSeverity,
    pub message: String,
    pub new_text: String,
    pub action_title: String,
}

/// The abstract value of a finding.
pub struct LintLineView {
    pub line: nat,
    pub col: nat,
    pub new: Seq<char>,
    pub old: Seq<char>,
    pub severity: LintSeverity,
}

/// The abstract value of a diagnostic.
pub struct LintDiagnosticView {
    pub start_line: u32,
    pub start_col: u32,
    pub end_line: u32,
    pub end_col: u32,
    pub severity: DiagnosticSeverity,
    pub message: Seq<char>,
    pub new_text: Seq<char>,
    pub action_title: Seq<char>,
}

impl View for LintLine {
    type V = LintLineView;

    open spec fn view(&self) -> LintLineView {
        LintLineView {
            line: self.line as nat,
            col: self.col as nat,
            new: self.new@,
            old: self.old@,
            severity: self.severity,
        }
    }
}

impl View for LintDiagnostic {
    type V = LintDiagnosticView;

    open spec fn view(&self) -> LintDiagnosticView {
        LintDiagnosticView {
            start_line: self.start_line,
            start_col: self.start_col,
            end_line: self.end_line,
            end_col: self.end_col,
            severity: self.severity,
            message: self.message@,
            new_text: self.new_text@,
            action_title: self.action_title@,
        }
    }
}

/// `n - 1`, or 0 for 0.
pub open spec fn minus_one(n: nat) -> nat {
    if n > 0 {
        (n - 1) as nat
    } else {
        0
    }
}

/// The diagnostic for a finding: errors become warnings, warnings hints, passes infos;
/// it spans the old text on its line (positions made 0-based, truncated to 32 bits).
pub open spec fn diagnostic_of(l: LintLineView) -> LintDiagnosticView {
    let line = minus_one(l.line);
    let col = minus_one(l.col);
    LintDiagnosticView {
        start_line: line as u32,
        start_col: col as u32,
        end_line: line as u32,
        end_col: (col + l.old.len()) as u32,
        severity: match l.severity {
            LintSeverity::Error => DiagnosticSeverity::Warning,
            LintSeverity::Warning => DiagnosticSeverity::Hint,
            LintSeverity::Pass => DiagnosticSeverity::Info,
        },
        message: "AutoCorrect: "@ + l.new,
        new_text: l.new,
        action_title: "Change to '"@ + l.new + "'"@,
    }
}

/// The views of findings.
pub open spec fn lint_views(v: Seq<LintLine>) -> Seq<LintLineView> {
    v.map_values(|l: LintLine| l@)
}

/// The views of diagnostics.
pub open spec fn diagnostic_views(v: Seq<LintDiagnostic>) -> Seq<LintDiagnosticView> {
    v.map_values(|d: LintDiagnostic| d@)
}

/// The diagnostics for a list of findings.
pub open spec fn diagnostics_of(found: Seq<LintLineView>) -> Seq<LintDiagnosticView> {
    found.map_values(|l: LintLineView| diagnostic_of(l))
}

/// Number of characters of `s`.
pub fn char_count(s: &str) -> (n: usize)
    ensures
        n == s@.len(),
{
    let v = crate::text::chars_of(s);
    v.len()
}

/// The diagnostic for one finding.
pub fn diagnostic_for(l: &LintLine) -> (d: LintDiagnostic)
    ensures
        d@ == diagnostic_of(l@),
{
    let line = l.line.saturating_sub(1);
    let col = l.col.saturating_sub(1);
    let count = char_count(l.old.as_str());
    let end = (col as u128 + count as u128) as u32;
    let start_line = line as u32;
    let start_col = col as u32;
    LintDiagnostic {
        start_line,
        start_col,
        end_line: start_line,
        end_col: end,
        severity: match l.severity {
            LintSeverity::Error => DiagnosticSeverity::Warning,
            LintSeverity::Warning => DiagnosticSeverity::Hint,
            LintSeverity::Pass => DiagnosticSeverity::Info,
        },
        message: concat2("AutoCorrect: ", l.new.as_str()),
        new_text: string_of(l.new.as_str()),
        action_title: concat3("Change to '", l.new.as_str(), "'"),
    }
}

/// The diagnostics for AutoCorrect's findings, in order.
pub fn lint_diagnostics(lines: &Vec<LintLine>) -> (r: Vec<LintDiagnostic>)
    ensures
        diagnostic_views(r@) == diagnostics_of(lint_views(lines@)),
{
    let ghost lv = lint_views(lines@);
    let mut r: Vec<LintDiagnostic> = Vec::new();
    let mut i: usize = 0;
    while i < lines.len()
        invariant
            i <= lines.len(),
            lv == lint_views(lines@),
            diagnostic_views(r@) == diagnostics_of(lv.take(i as int)),
        decreases lines.len() - i,
    {
        let d = diagnostic_for(&lines[i]);
        assert(lv[i as int] == lines@[i as int]@);
        let ghost before = r@;
        r.push(d);
        assert(diagnostic_views(r@) =~= diagnostic_views(before).push(d@));
        assert(diagnostics_of(lv.take(i + 1)) =~= diagnostics_of(lv.take(i as int)).push(diagnostic_of(lv[i as int])));
        i = i + 1;
    }
    assert(lv.take(i as int) =~= lv);
    r
}

/// AutoCorrect can report the findings `found` for `text` written in `language`. What it
/// reports also depends on its process-wide configuration, so this is a relation between
/// the input and a possible outcome, not a function of the input.
pub uninterp spec fn autocorrect_reports(text: Seq<char>, language: Seq<char>, found: Seq<LintLineView>) -> bool;

/// Runs `autocorrect::lint_for(text, language)` and hands out its findings, each converted
/// field for field. The contract ties the findings to the text and language handed to
/// AutoCorrect; which findings it makes is left unsaid, since it reads its process-wide
/// configuration.
#[verifier::external_body]
fn lint_for(text: &str, language: &str) -> (r: Vec<LintLine>)
    ensures
        autocorrect_reports(text@, language@, lint_views(r@)),
{
    autocorrect::lint_for(text, language).lines.into_iter().map(|l| LintLine {
        line: l.line,
        col: l.col,
        new: l.new,
        old: l.old,
        severity: match l.severity {
            autocorrect::Severity::Pass => LintSeverity::Pass,
            autocorrect::Severity::Error => LintSeverity::Error,
            autocorrect::Severity::Warning => LintSeverity::Warning,
        },
    }).collect()
}

/// Lints a document written in `language` and returns the diagnostics for what
/// AutoCorrect finds, one per finding.
pub fn lint_document(text: &str, language: &str) -> (r: Vec<LintDiagnostic>)
    ensures
        exists|found: Seq<LintLineView>|
            #[trigger] autocorrect_reports(text@, language@, found) && diagnostic_views(r@)
                == diagnostics_of(found),
{
    let lines = lint_for(text, language);
    let r = lint_diagnostics(&lines);
    assert(autocorrect_reports(text@, language@, lint_views(lines@)));
    r
}

} // verus!
