//! Analysis of source files for issues.
//!
//! A project is analysed file by file, from the file texts the caller
//! hands in: a syntax pass over the external parser's error nodes,
//! user-supplied custom rules matched through the external regex engine,
//! and the command-registration check for embedding-framework files.
//! Issues found by an external lint tool can be merged into the results
//! afterwards.

use vstd::prelude::*;
use crate::CustomRule;
use crate::CustomRuleModel;
use crate::AnalysisOptionsModel;
use crate::AnalysisOptions;
use crate::ErrorModel;
use crate::Result;
use crate::RustAiToolError;
use crate::Severity;
use crate::extract::extract_commands_from;
use crate::extract::extract_tauri_commands;
use crate::extract::extract_invoke_handlers;
use crate::extract::spec_extract_handlers;
use crate::syntax::parse_error_spans;
use crate::syntax::syntax_error_spans;
use crate::text::any_contains;
use crate::text::concat3;
use crate::validation::handler_covers;
use crate::validation::is_tauri_file;
use crate::validation::spec_is_tauri_file;

verus! {

/// Categories of code issues.
#[derive(Debug)]
pub enum IssueCategory {
    /// Syntax error.
    Syntax,
    /// Semantic error.
    Semantic,
    /// Code style issue.
    Style,
    /// Performance issue.
    Performance,
    /// Security vulnerability.
    Security,
    /// Embedding-framework compatibility issue.
    TauriCompatibility,
    /// General code quality issue.
    CodeQuality,
    /// Violation of the named custom rule.
    CustomRule(String),
}

/// Mathematical model of [`IssueCategory`].
pub ghost enum IssueCategoryModel {
    Syntax,
    Semantic,
    Style,
    Performance,
    Security,
    TauriCompatibility,
    CodeQuality,
    CustomRule(Seq<char>),
}

impl View for IssueCategory {
    type V = IssueCategoryModel;

    open spec fn view(&self) -> IssueCategoryModel {
        match self {
            IssueCategory::Syntax => IssueCategoryModel::Syntax,
            IssueCategory::Semantic => IssueCategoryModel::Semantic,
            IssueCategory::Style => IssueCategoryModel::Style,
            IssueCategory::Performance => IssueCategoryModel::Performance,
            IssueCategory::Security => IssueCategoryModel::Security,
            IssueCategory::TauriCompatibility => IssueCategoryModel::TauriCompatibility,
            IssueCategory::CodeQuality => IssueCategoryModel::CodeQuality,
            IssueCategory::CustomRule(name) => IssueCategoryModel::CustomRule(name@),
        }
    }
}

impl Clone for IssueCategory {
    fn clone(&self) -> (r: Self)
        ensures
            r@ == self@,
    {
        match self {
            IssueCategory::Syntax => IssueCategory::Syntax,
            IssueCategory::Semantic => IssueCategory::Semantic,
            IssueCategory::Style => IssueCategory::Style,
            IssueCategory::Performance => IssueCategory::Performance,
            IssueCategory::Security => IssueCategory::Security,
            IssueCategory::TauriCompatibility => IssueCategory::TauriCompatibility,
            IssueCategory::CodeQuality => IssueCategory::CodeQuality,
            IssueCategory::CustomRule(name) => IssueCategory::CustomRule(name.clone()),
        }
    }
}

/// A suggested fix for a code issue.
#[derive(Debug)]
pub struct CodeFix {
    /// Original code that should be replaced.
    pub original_code: String,
    /// Replacement code.
    pub replacement_code: String,
    /// Confidence level for this fix (0-100).
    pub confidence: u8,
    /// Description of the fix.
    pub description: String,
}

/// Mathematical model of [`CodeFix`].
pub ghost struct CodeFixModel {
    pub original_code: Seq<char>,
    pub replacement_code: Seq<char>,
    pub confidence: u8,
    pub description: Seq<char>,
}

impl View for CodeFix {
    type V = CodeFixModel;

    open spec fn view(&self) -> CodeFixModel {
        CodeFixModel {
            original_code: self.original_code@,
            replacement_code: self.replacement_code@,
            confidence: self.confidence,
            description: self.description@,
        }
    }
}

impl Clone for CodeFix {
    fn clone(&self) -> (r: Self)
        ensures
            r@ == self@,
    {
        CodeFix {
            original_code: self.original_code.clone(),
            replacement_code: self.replacement_code.clone(),
            confidence: self.confidence,
            description: self.description.clone(),
        }
    }
}

/// An issue found in a source file.
#[derive(Debug)]
pub struct CodeIssue {
    /// Path of the file where the issue was found.
    pub file_path: String,
    /// Line where the issue starts.
    pub line_start: usize,
    /// Column where the issue starts.
    pub column_start: usize,
    /// Line where the issue ends.
    pub line_end: usize,
    /// Column where the issue ends.
    pub column_end: usize,
    /// The category of the issue.
    pub category: IssueCategory,
    /// The severity of the issue.
    pub severity: Severity,
    /// Description of the issue.
    pub message: String,
    /// Suggested fix for the issue, when one is known.
    pub suggested_fix: Option<CodeFix>,
}

/// Mathematical model of [`CodeIssue`].
pub ghost struct CodeIssueModel {
    pub file_path: Seq<char>,
    pub line_start: usize,
    pub column_start: usize,
    pub line_end: usize,
    pub column_end: usize,
    pub category: IssueCategoryModel,
    pub severity: Severity,
    pub message: Seq<char>,
    pub suggested_fix: Option<CodeFixModel>,
}

impl View for CodeIssue {
    type V = CodeIssueModel;

    open spec fn view(&self) -> CodeIssueModel {
        CodeIssueModel {
            file_path: self.file_path@,
            line_start: self.line_start,
            column_start: self.column_start,
            line_end: self.line_end,
            column_end: self.column_end,
            category: self.category@,
            severity: self.severity,
            message: self.message@,
            suggested_fix: match self.suggested_fix {
                Some(ref f) => Some(f@),
                None => None,
            },
        }
    }
}

impl DeepView for CodeIssue {
    type V = CodeIssueModel;

    open spec fn deep_view(&self) -> CodeIssueModel {
        self.view()
    }
}

impl Clone for CodeIssue {
    fn clone(&self) -> (r: Self)
        ensures
            r@ == self@,
    {
        CodeIssue {
            file_path: self.file_path.clone(),
            line_start: self.line_start,
            column_start: self.column_start,
            line_end: self.line_end,
            column_end: self.column_end,
            category: self.category.clone(),
            severity: self.severity,
            message: self.message.clone(),
            suggested_fix: match &self.suggested_fix {
                Some(f) => Some(f.clone()),
                None => None,
            },
        }
    }
}

/// The result of analysing one file.
#[derive(Debug)]
pub struct AnalysisResult {
    /// Path of the analysed file.
    pub file_path: String,
    /// Issues found in the file.
    pub issues: Vec<CodeIssue>,
    /// Errors encountered during analysis.
    pub errors: Vec<String>,
    /// Whether the file was successfully analysed.
    pub success: bool,
}

/// Mathematical model of [`AnalysisResult`].
pub ghost struct AnalysisResultModel {
    pub file_path: Seq<char>,
    pub issues: Seq<CodeIssueModel>,
    pub errors: Seq<Seq<char>>,
    pub success: bool,
}

impl View for AnalysisResult {
    type V = AnalysisResultModel;

    open spec fn view(&self) -> AnalysisResultModel {
        AnalysisResultModel {
            file_path: self.file_path@,
            issues: self.issues.deep_view(),
            errors: self.errors.deep_view(),
            success: self.success,
        }
    }
}

impl DeepView for AnalysisResult {
    type V = AnalysisResultModel;

    open spec fn deep_view(&self) -> AnalysisResultModel {
        self.view()
    }
}

/// One source file handed to the analyser: a path and the file's text.
#[derive(Debug, Clone)]
pub struct SourceText {
    /// Path of the file.
    pub path: String,
    /// The file's text.
    pub content: String,
}

/// Mathematical model of [`SourceText`].
pub ghost struct SourceTextModel {
    pub path: Seq<char>,
    pub content: Seq<char>,
}

impl View for SourceText {
    type V = SourceTextModel;

    open spec fn view(&self) -> SourceTextModel {
        SourceTextModel { path: self.path@, content: self.content@ }
    }
}

impl DeepView for SourceText {
    type V = SourceTextModel;

    open spec fn deep_view(&self) -> SourceTextModel {
        self.view()
    }
}

// ---------------------------------------------------------------------
// Offsets to line and column.
// ---------------------------------------------------------------------

/// The number of newline characters among the first `end` characters.
pub open spec fn count_newlines(t: Seq<char>, end: int) -> nat
    decreases end,
{
    if end <= 0 || end > t.len() {
        0
    } else {
        count_newlines(t, end - 1) + (if t[end - 1] == '\n' {
            1nat
        } else {
            0nat
        })
    }
}

/// The column of the position after the first `end` characters: one more
/// than the number of characters since the last newline.
pub open spec fn column_at(t: Seq<char>, end: int) -> nat
    decreases end,
{
    if end <= 0 || end > t.len() {
        1
    } else if t[end - 1] == '\n' {
        1
    } else {
        column_at(t, end - 1) + 1
    }
}

/// The clamp of `off` to the length of `t`.
pub open spec fn clamp_offset(t: Seq<char>, off: int) -> int {
    if off > t.len() {
        t.len() as int
    } else {
        off
    }
}

/// The one-based line of the character offset `off` in `t`.
pub open spec fn line_of(t: Seq<char>, off: int) -> nat {
    count_newlines(t, clamp_offset(t, off)) + 1
}

/// The one-based column of the character offset `off` in `t`.
pub open spec fn column_of(t: Seq<char>, off: int) -> nat {
    column_at(t, clamp_offset(t, off))
}

/// Convert a character offset to a one-based line and column. Offsets
/// past the end of the text give the position of the end.
pub fn offset_to_line_column(text: &str, offset: usize) -> (r: (usize, usize))
    requires
        text@.len() < usize::MAX,
    ensures
        r.0 as nat == line_of(text@, offset as int),
        r.1 as nat == column_of(text@, offset as int),
{
    let t = crate::text::chars_vec(text);
    let stop = if offset > t.len() {
        t.len()
    } else {
        offset
    };
    let mut line: usize = 1;
    let mut col: usize = 1;
    let mut i: usize = 0;
    while i < stop
        invariant
            i <= stop <= t@.len() < usize::MAX,
            line as nat == count_newlines(t@, i as int) + 1,
            col as nat == column_at(t@, i as int),
            line <= i + 1,
            col <= i + 1,
        decreases stop - i,
    {
        if t[i] == '\n' {
            line = line + 1;
            col = 1;
        } else {
            col = col + 1;
        }
        i = i + 1;
    }
    (line, col)
}

// ---------------------------------------------------------------------
// Syntax analysis.
// ---------------------------------------------------------------------

/// The issue recorded for one error span of the parser.
pub open spec fn syntax_issue_of(t: Seq<char>, path: Seq<char>, span: (usize, usize)) -> CodeIssueModel {
    CodeIssueModel {
        file_path: path,
        line_start: (line_of(t, span.0 as int) as usize),
        column_start: (column_of(t, span.0 as int) as usize),
        line_end: (line_of(t, span.1 as int) as usize),
        column_end: (column_of(t, span.1 as int) as usize),
        category: IssueCategoryModel::Syntax,
        severity: Severity::Error,
        message: "Syntax error"@,
        suggested_fix: None,
    }
}

/// The syntax issues of `t`: one per error span of the parser.
pub open spec fn syntax_issues(t: Seq<char>, path: Seq<char>) -> Seq<CodeIssueModel> {
    syntax_error_spans(t).map_values(|span: (usize, usize)| syntax_issue_of(t, path, span))
}

/// Analyse `content` for syntax issues.
pub fn analyze_syntax(content: &str, file_path: &str) -> (r: Result<Vec<CodeIssue>>)
    requires
        content@.len() < usize::MAX,
    ensures
        r matches Ok(issues) && issues.deep_view() == syntax_issues(content@, file_path@),
{
    let spans = parse_error_spans(content);
    let mut issues: Vec<CodeIssue> = Vec::new();
    let mut i: usize = 0;
    while i < spans.len()
        invariant
            i <= spans@.len(),
            spans@ == syntax_error_spans(content@),
            issues@.len() == i,
            forall|j: int|
                0 <= j < i ==> #[trigger] issues.deep_view()[j] == syntax_issue_of(
                    content@,
                    file_path@,
                    spans@[j],
                ),
        decreases spans@.len() - i,
    {
        let ghost pre = issues.deep_view();
        let (start, end) = spans[i];
        let (line_start, column_start) = offset_to_line_column(content, start);
        let (line_end, column_end) = offset_to_line_column(content, end);
        issues.push(
            CodeIssue {
                file_path: file_path.to_owned(),
                line_start,
                column_start,
                line_end,
                column_end,
                category: IssueCategory::Syntax,
                severity: Severity::Error,
                message: "Syntax error".to_owned(),
                suggested_fix: None,
            },
        );
        proof {
            assert(issues.deep_view() =~= pre.push(issues@.last().deep_view()));
        }
        i = i + 1;
    }
    proof {
        assert(issues.deep_view() =~= syntax_issues(content@, file_path@));
    }
    Ok(issues)
}

// ---------------------------------------------------------------------
// Custom rules through the external regex engine.
// ---------------------------------------------------------------------

/// Whether `pattern` is a valid pattern of the external regex engine.
pub uninterp spec fn regex_ok(pattern: Seq<char>) -> bool;

/// The spans of the non-overlapping, leftmost matches that the external
/// regex engine finds for `pattern` in `text`.
pub uninterp spec fn regex_match_spans(pattern: Seq<char>, text: Seq<char>) -> Seq<(usize, usize)>;

/// Relies on `regex::Regex::new` and `regex::Regex::find_iter`: whether a
/// pattern compiles depends on the pattern alone, and the spans of the
/// non-overlapping leftmost matches are a deterministic function of the
/// pattern and the text, named here by [`regex_match_spans`].
#[verifier::external_body]
fn regex_find_spans(pattern: &str, text: &str) -> (r: Option<Vec<(usize, usize)>>)
    ensures
        r is Some <==> regex_ok(pattern@),
        r matches Some(v) ==> v@ == regex_match_spans(pattern@, text@),
{
    match regex::Regex::new(pattern) {
        Ok(re) => Some(re.find_iter(text).map(|m| (m.start(), m.end())).collect()),
        Err(_) => None,
    }
}

/// The issue recorded for one match span of a custom rule.
pub open spec fn rule_issue_of(
    rule: CustomRuleModel,
    t: Seq<char>,
    path: Seq<char>,
    span: (usize, usize),
) -> CodeIssueModel {
    CodeIssueModel {
        file_path: path,
        line_start: (line_of(t, span.0 as int) as usize),
        column_start: (column_of(t, span.0 as int) as usize),
        line_end: (line_of(t, span.1 as int) as usize),
        column_end: (column_of(t, span.1 as int) as usize),
        category: IssueCategoryModel::CustomRule(rule.name),
        severity: rule.severity,
        message: rule.message,
        suggested_fix: None,
    }
}

/// The issues of a custom rule over `t`: one per match of its pattern.
pub open spec fn custom_rule_issues(rule: CustomRuleModel, t: Seq<char>, path: Seq<char>) -> Seq<
    CodeIssueModel,
> {
    regex_match_spans(rule.pattern, t).map_values(
        |span: (usize, usize)| rule_issue_of(rule, t, path, span),
    )
}

/// Apply one custom rule to a file's text: every match of its pattern
/// becomes an issue. A pattern the engine refuses is a configuration
/// error naming the rule.
pub fn apply_custom_rule(rule: &CustomRule, content: &str, file_path: &str) -> (r: Result<
    Vec<CodeIssue>,
>)
    requires
        content@.len() < usize::MAX,
    ensures
        match r {
            Ok(issues) => regex_ok(rule@.pattern) && issues.deep_view() == custom_rule_issues(
                rule@,
                content@,
                file_path@,
            ),
            Err(e) => !regex_ok(rule@.pattern) && e@ == ErrorModel::Configuration(rule@.name),
        },
{
    let spans = match regex_find_spans(rule.pattern.as_str(), content) {
        Some(spans) => spans,
        None => {
            return Err(RustAiToolError::Configuration(rule.name.clone()));
        },
    };
    let mut issues: Vec<CodeIssue> = Vec::new();
    let mut i: usize = 0;
    while i < spans.len()
        invariant
            i <= spans@.len(),
            spans@ == regex_match_spans(rule@.pattern, content@),
            issues@.len() == i,
            forall|j: int|
                0 <= j < i ==> #[trigger] issues.deep_view()[j] == rule_issue_of(
                    rule@,
                    content@,
                    file_path@,
                    spans@[j],
                ),
        decreases spans@.len() - i,
    {
        let ghost pre = issues.deep_view();
        let (start, end) = spans[i];
        let (line_start, column_start) = offset_to_line_column(content, start);
        let (line_end, column_end) = offset_to_line_column(content, end);
        issues.push(
            CodeIssue {
                file_path: file_path.to_owned(),
                line_start,
                column_start,
                line_end,
                column_end,
                category: IssueCategory::CustomRule(rule.name.clone()),
                severity: rule.severity,
                message: rule.message.clone(),
                suggested_fix: None,
            },
        );
        proof {
            assert(issues.deep_view() =~= pre.push(issues@.last().deep_view()));
        }
        i = i + 1;
    }
    proof {
        assert(issues.deep_view() =~= custom_rule_issues(rule@, content@, file_path@));
    }
    Ok(issues)
}

// ---------------------------------------------------------------------
// Embedding-framework compatibility.
// ---------------------------------------------------------------------

/// One issue for each command of `cmds` that no registration of
/// `handlers` mentions.
pub open spec fn tauri_issues(
    cmds: Seq<Seq<char>>,
    handlers: Seq<Seq<char>>,
    path: Seq<char>,
) -> Seq<CodeIssueModel>
    decreases cmds.len(),
{
    if cmds.len() == 0 {
        Seq::empty()
    } else {
        (if !handler_covers(handlers, cmds[0]) {
            seq![
                CodeIssueModel {
                    file_path: path,
                    line_start: 0,
                    column_start: 0,
                    line_end: 0,
                    column_end: 0,
                    category: IssueCategoryModel::TauriCompatibility,
                    severity: Severity::Error,
                    message: "Tauri command '"@ + cmds[0]
                        + "' is not registered in any invoke_handler"@,
                    suggested_fix: None,
                },
            ]
        } else {
            Seq::empty()
        }) + tauri_issues(cmds.skip(1), handlers, path)
    }
}

/// Analyse `content` for exposed commands that are never registered.
pub fn analyze_tauri_compatibility(content: &str, file_path: &str) -> (r: Result<Vec<CodeIssue>>)
    ensures
        r matches Ok(issues) && issues.deep_view() == tauri_issues(
            extract_commands_from(content@, 0),
            spec_extract_handlers(content@),
            file_path@,
        ),
{
    let commands = extract_tauri_commands(content);
    let handlers = extract_invoke_handlers(content);
    let ghost cmds_s = commands.deep_view();
    let ghost handlers_s = handlers.deep_view();
    let mut issues: Vec<CodeIssue> = Vec::new();
    let mut i: usize = 0;
    proof {
        assert(cmds_s.skip(0) =~= cmds_s);
    }
    while i < commands.len()
        invariant
            i <= cmds_s.len(),
            cmds_s.len() == commands@.len(),
            cmds_s == commands.deep_view(),
            handlers_s == handlers.deep_view(),
            tauri_issues(cmds_s, handlers_s, file_path@) == issues.deep_view() + tauri_issues(
                cmds_s.skip(i as int),
                handlers_s,
                file_path@,
            ),
        decreases cmds_s.len() - i,
    {
        proof {
            assert(cmds_s.skip(i as int)[0] == cmds_s[i as int]);
            assert(cmds_s.skip(i as int).skip(1) =~= cmds_s.skip(i + 1));
            assert(cmds_s[i as int] == commands@[i as int]@);
        }
        let ghost pre = issues.deep_view();
        if !any_contains(&handlers, commands[i].as_str()) {
            let text = concat3(
                "Tauri command '",
                commands[i].as_str(),
                "' is not registered in any invoke_handler",
            );
            issues.push(
                CodeIssue {
                    file_path: file_path.to_owned(),
                    line_start: 0,
                    column_start: 0,
                    line_end: 0,
                    column_end: 0,
                    category: IssueCategory::TauriCompatibility,
                    severity: Severity::Error,
                    message: text,
                    suggested_fix: None,
                },
            );
            proof {
                assert(issues.deep_view() =~= pre.push(issues@.last().deep_view()));
                assert(pre + (seq![issues@.last().deep_view()] + tauri_issues(
                    cmds_s.skip(i + 1),
                    handlers_s,
                    file_path@,
                )) =~= issues.deep_view() + tauri_issues(cmds_s.skip(i + 1), handlers_s, file_path@));
            }
        }
        i = i + 1;
    }
    proof {
        assert(tauri_issues(cmds_s.skip(cmds_s.len() as int), handlers_s, file_path@) =~= Seq::<
            CodeIssueModel,
        >::empty());
        assert(issues.deep_view() + Seq::<CodeIssueModel>::empty() =~= issues.deep_view());
    }
    Ok(issues)
}

// ---------------------------------------------------------------------
// Whole-file and whole-project analysis.
// ---------------------------------------------------------------------

/// The issues and errors contributed by a list of custom rules, in rule
/// order: the issues of each valid rule, and one error naming each rule
/// whose pattern the engine refuses.
pub open spec fn rules_outcome(
    rules: Seq<CustomRuleModel>,
    t: Seq<char>,
    path: Seq<char>,
) -> (Seq<CodeIssueModel>, Seq<Seq<char>>)
    decreases rules.len(),
{
    if rules.len() == 0 {
        (Seq::empty(), Seq::empty())
    } else {
        let rest = rules_outcome(rules.skip(1), t, path);
        if regex_ok(rules[0].pattern) {
            (custom_rule_issues(rules[0], t, path) + rest.0, rest.1)
        } else {
            (rest.0, seq![
                "Custom rule '"@ + rules[0].name + "' failed: invalid pattern"@,
            ] + rest.1)
        }
    }
}

/// The analysis of one file: the syntax pass when enabled, then the
/// custom rules, then the framework check for framework files.
pub open spec fn file_analysis(
    path: Seq<char>,
    content: Seq<char>,
    options: AnalysisOptionsModel,
) -> AnalysisResultModel {
    let syntax_part = if options.use_rust_analyzer {
        syntax_issues(content, path)
    } else {
        Seq::empty()
    };
    let rules_part = rules_outcome(options.custom_rules, content, path);
    let tauri_part = if spec_is_tauri_file(path) {
        tauri_issues(extract_commands_from(content, 0), spec_extract_handlers(content), path)
    } else {
        Seq::empty()
    };
    AnalysisResultModel {
        file_path: path,
        issues: syntax_part + rules_part.0 + tauri_part,
        errors: rules_part.1,
        success: true,
    }
}

/// Analyse one file against the given options.
pub fn analyze_file(path: &str, content: &str, options: &AnalysisOptions) -> (r: AnalysisResult)
    requires
        content@.len() < usize::MAX,
    ensures
        r@ == file_analysis(path@, content@, options@),
{
    let mut issues: Vec<CodeIssue> = Vec::new();
    let mut errors: Vec<String> = Vec::new();
    if options.use_rust_analyzer {
        match analyze_syntax(content, path) {
            Ok(mut syntax_found) => {
                issues.append(&mut syntax_found);
            },
            Err(_) => {
                proof {
                    assert(false);
                }
            },
        }
    }
    proof {
        assert(issues.deep_view() =~= (if options@.use_rust_analyzer {
            syntax_issues(content@, path@)
        } else {
            Seq::<CodeIssueModel>::empty()
        }));
        assert(errors.deep_view() =~= Seq::<Seq<char>>::empty());
    }
    let ghost base_issues = issues.deep_view();
    let ghost rules_s = options.custom_rules.deep_view();
    let mut i: usize = 0;
    proof {
        assert(rules_s.skip(0) =~= rules_s);
    }
    while i < options.custom_rules.len()
        invariant
            i <= rules_s.len(),
            rules_s.len() == options.custom_rules@.len(),
            rules_s == options.custom_rules.deep_view(),
            content@.len() < usize::MAX,
            ({
                let full = rules_outcome(rules_s, content@, path@);
                let rest = rules_outcome(rules_s.skip(i as int), content@, path@);
                base_issues + full.0 == issues.deep_view() + rest.0 && full.1 == errors.deep_view()
                    + rest.1
            }),
        decreases rules_s.len() - i,
    {
        proof {
            assert(rules_s.skip(i as int)[0] == rules_s[i as int]);
            assert(rules_s.skip(i as int).skip(1) =~= rules_s.skip(i + 1));
            assert(rules_s[i as int] == options.custom_rules@[i as int]@);
        }
        let ghost pre_issues = issues.deep_view();
        let ghost pre_errors = errors.deep_view();
        match apply_custom_rule(&options.custom_rules[i], content, path) {
            Ok(mut rule_issues) => {
                issues.append(&mut rule_issues);
                proof {
                    let rest = rules_outcome(rules_s.skip(i + 1), content@, path@);
                    assert(pre_issues + (custom_rule_issues(rules_s[i as int], content@, path@)
                        + rest.0) =~= issues.deep_view() + rest.0);
                }
            },
            Err(_) => {
                let text = concat3(
                    "Custom rule '",
                    options.custom_rules[i].name.as_str(),
                    "' failed: invalid pattern",
                );
                errors.push(text);
                proof {
                    let rest = rules_outcome(rules_s.skip(i + 1), content@, path@);
                    assert(errors.deep_view() =~= pre_errors.push(errors@.last().deep_view()));
                    assert(pre_errors + (seq![
                        "Custom rule '"@ + rules_s[i as int].name + "' failed: invalid pattern"@,
                    ] + rest.1) =~= errors.deep_view() + rest.1);
                }
            },
        }
        i = i + 1;
    }
    proof {
        let rest = rules_outcome(rules_s.skip(rules_s.len() as int), content@, path@);
        assert(rest.0 =~= Seq::<CodeIssueModel>::empty());
        assert(rest.1 =~= Seq::<Seq<char>>::empty());
        assert(issues.deep_view() + Seq::<CodeIssueModel>::empty() =~= issues.deep_view());
        assert(errors.deep_view() + Seq::<Seq<char>>::empty() =~= errors.deep_view());
    }
    let ghost with_rules = issues.deep_view();
    if is_tauri_file(path) {
        match analyze_tauri_compatibility(content, path) {
            Ok(mut tauri_found) => {
                let ghost pre = issues.deep_view();
                issues.append(&mut tauri_found);
                proof {
                    assert(issues.deep_view() =~= pre + tauri_issues(
                        extract_commands_from(content@, 0),
                        spec_extract_handlers(content@),
                        path@,
                    ));
                }
            },
            Err(_) => {
                proof {
                    assert(false);
                }
            },
        }
    }
    let result = AnalysisResult { file_path: path.to_owned(), issues, errors, success: true };
    proof {
        assert(result@.issues =~= file_analysis(path@, content@, options@).issues);
    }
    result
}

/// Analyse a project, file by file: one result per input file, in order.
pub fn analyze_project(files: &Vec<SourceText>, options: &AnalysisOptions) -> (r: Result<
    Vec<AnalysisResult>,
>)
    requires
        forall|i: int| 0 <= i < files@.len() ==> #[trigger] files@[i]@.content.len() < usize::MAX,
    ensures
        r matches Ok(results) && results@.len() == files@.len() && forall|i: int|
            0 <= i < files@.len() ==> #[trigger] results.deep_view()[i] == file_analysis(
                files.deep_view()[i].path,
                files.deep_view()[i].content,
                options@,
            ),
{
    let mut results: Vec<AnalysisResult> = Vec::new();
    let mut i: usize = 0;
    while i < files.len()
        invariant
            i <= files@.len(),
            results@.len() == i,
            forall|j: int|
                0 <= j < files@.len() ==> #[trigger] files@[j]@.content.len() < usize::MAX,
            forall|j: int|
                0 <= j < i ==> #[trigger] results.deep_view()[j] == file_analysis(
                    files.deep_view()[j].path,
                    files.deep_view()[j].content,
                    options@,
                ),
        decreases files@.len() - i,
    {
        let ghost pre = results.deep_view();
        proof {
            assert(files@[i as int]@.content.len() < usize::MAX);
        }
        let result = analyze_file(files[i].path.as_str(), files[i].content.as_str(), options);
        results.push(result);
        proof {
            assert(results.deep_view() =~= pre.push(results@.last().deep_view()));
            assert(files.deep_view()[i as int] == files@[i as int]@);
        }
        i = i + 1;
    }
    Ok(results)
}

/// The issues of `extra` whose path is `path`, in order.
pub open spec fn issues_with_path(extra: Seq<CodeIssueModel>, path: Seq<char>) -> Seq<
    CodeIssueModel,
>
    decreases extra.len(),
{
    if extra.len() == 0 {
        Seq::empty()
    } else {
        (if extra[0].file_path == path {
            seq![extra[0]]
        } else {
            Seq::empty()
        }) + issues_with_path(extra.skip(1), path)
    }
}

/// Append to `result` the issues of `extra` that concern its file, in
/// order. This merges what an external lint tool reported for the
/// project into the per-file results.
pub fn add_matching_issues(result: &mut AnalysisResult, extra: &Vec<CodeIssue>)
    ensures
        final(result)@.file_path == old(result)@.file_path,
        final(result)@.errors == old(result)@.errors,
        final(result)@.success == old(result)@.success,
        final(result)@.issues == old(result)@.issues + issues_with_path(
            extra.deep_view(),
            old(result)@.file_path,
        ),
{
    let ghost extra_s = extra.deep_view();
    let ghost base = result@.issues;
    let ghost path = result@.file_path;
    let mut i: usize = 0;
    proof {
        assert(extra_s.skip(0) =~= extra_s);
    }
    while i < extra.len()
        invariant
            i <= extra_s.len(),
            extra_s.len() == extra@.len(),
            extra_s == extra.deep_view(),
            result@.file_path == path,
            result@.errors == old(result)@.errors,
            result@.success == old(result)@.success,
            base + issues_with_path(extra_s, path) == result@.issues + issues_with_path(
                extra_s.skip(i as int),
                path,
            ),
        decreases extra_s.len() - i,
    {
        proof {
            assert(extra_s.skip(i as int)[0] == extra_s[i as int]);
            assert(extra_s.skip(i as int).skip(1) =~= extra_s.skip(i + 1));
            assert(extra_s[i as int] == extra@[i as int]@);
        }
        let ghost pre = result@.issues;
        if extra[i].file_path.as_str().eq(result.file_path.as_str()) {
            result.issues.push(extra[i].clone());
            proof {
                assert(result@.issues =~= pre.push(result.issues@.last().deep_view()));
                assert(pre + (seq![extra_s[i as int]] + issues_with_path(
                    extra_s.skip(i + 1),
                    path,
                )) =~= result@.issues + issues_with_path(extra_s.skip(i + 1), path));
            }
        }
        i = i + 1;
    }
    proof {
        assert(issues_with_path(extra_s.skip(extra_s.len() as int), path) =~= Seq::<
            CodeIssueModel,
        >::empty());
        assert(result@.issues + Seq::<CodeIssueModel>::empty() =~= result@.issues);
    }
}

} // verus!
