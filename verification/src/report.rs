//! Rendering validation and analysis results for the user.
//!
//! The validation renderer distinguishes accepted fixes from rejected
//! ones and, for the rejected ones, names the severity and lists the
//! error findings. The analysis renderers produce a markdown report and
//! a console listing of the issues found per file.

use vstd::prelude::*;
use crate::Severity;
use crate::analysis::AnalysisResult;
use crate::analysis::AnalysisResultModel;
use crate::analysis::CodeIssue;
use crate::analysis::CodeIssueModel;
use crate::analysis::IssueCategory;
use crate::analysis::IssueCategoryModel;
use crate::modification::split_lines;
use crate::modification::split_lines_exec;
use crate::text::chars_vec;
use crate::text::concat3;
use crate::text::dec_str;
use crate::text::usize_to_string;
use crate::validation::severity_name;
use crate::validation::MessageModel;
use crate::validation::ValidationMessageType;
use crate::validation::ValidationResult;
use crate::validation::VerdictModel;

verus! {

/// The number of verdicts at or after `i` that accept their fix.
pub open spec fn count_valid_from(rs: Seq<VerdictModel>, i: int) -> nat
    decreases rs.len() - i,
{
    if i < 0 || i >= rs.len() {
        0
    } else {
        (if rs[i].is_valid {
            1nat
        } else {
            0nat
        }) + count_valid_from(rs, i + 1)
    }
}

/// One rendered line per error finding at or after `i`.
pub open spec fn error_lines(ms: Seq<MessageModel>, i: int) -> Seq<char>
    decreases ms.len() - i,
{
    if i < 0 || i >= ms.len() {
        Seq::empty()
    } else {
        (if ms[i].message_type == ValidationMessageType::Error {
            "  - ERROR: "@ + ms[i].text + "\n"@
        } else {
            Seq::empty()
        }) + error_lines(ms, i + 1)
    }
}

/// The rendered block of the verdict numbered `num`: its header line
/// and, for a rejected fix, its severity and its error findings.
pub open spec fn verdict_block(num: int, v: VerdictModel) -> Seq<char> {
    "Fix #"@ + dec_str(num as nat) + " for "@ + v.file_path + ": "@ + (if v.is_valid {
        "VALID"@
    } else {
        "INVALID"@
    }) + "\n"@ + (if !v.is_valid {
        "  Severity: "@ + severity_name(v.severity) + "\n"@ + error_lines(v.messages, 0)
    } else {
        Seq::empty()
    }) + "\n"@
}

/// The rendered blocks of the verdicts from index `i` on, numbered from
/// `i + 1`.
pub open spec fn verdict_blocks(rs: Seq<VerdictModel>, i: int) -> Seq<char>
    decreases rs.len() - i,
{
    if i < 0 || i >= rs.len() {
        Seq::empty()
    } else {
        verdict_block(i + 1, rs[i]) + verdict_blocks(rs, i + 1)
    }
}

/// The rendered validation report: how many fixes are valid, then one
/// block per verdict.
pub open spec fn spec_validation_report(rs: Seq<VerdictModel>) -> Seq<char> {
    "Validation Results: "@ + dec_str(count_valid_from(rs, 0)) + "/"@ + dec_str(rs.len())
        + " fixes are valid\n\n"@ + verdict_blocks(rs, 0)
}

/// Render the block of one verdict, numbered `num`.
fn build_verdict_block(num: usize, result: &ValidationResult) -> (r: String)
    requires
        num < usize::MAX,
    ensures
        r@ == verdict_block(num + 1, result@),
{
    let mut block = String::new();
    block.append("Fix #");
    let num_text = usize_to_string(num + 1);
    block.append(num_text.as_str());
    block.append(" for ");
    block.append(result.file_path.as_str());
    block.append(": ");
    if result.is_valid {
        block.append("VALID");
    } else {
        block.append("INVALID");
    }
    block.append("\n");
    proof {
        assert(block@ =~= "Fix #"@ + dec_str((num + 1) as nat) + " for "@ + result@.file_path
            + ": "@ + (if result@.is_valid {
            "VALID"@
        } else {
            "INVALID"@
        }) + "\n"@);
    }
    let ghost head = block@;
    if !result.is_valid {
        block.append("  Severity: ");
        block.append(result.severity.name());
        block.append("\n");
        let ghost mid = block@;
        proof {
            assert(mid =~= head + ("  Severity: "@ + severity_name(result@.severity) + "\n"@));
        }
        let ghost ms = result.messages.deep_view();
        let mut i: usize = 0;
        proof {
            assert(block@ + error_lines(ms, 0) =~= head + ("  Severity: "@ + severity_name(
                result@.severity,
            ) + "\n"@ + error_lines(ms, 0)));
        }
        while i < result.messages.len()
            invariant
                i <= ms.len(),
                ms.len() == result.messages@.len(),
                ms == result.messages.deep_view(),
                head + ("  Severity: "@ + severity_name(result@.severity) + "\n"@ + error_lines(
                    ms,
                    0,
                )) == block@ + error_lines(ms, i as int),
            decreases ms.len() - i,
        {
            let ghost pre = block@;
            proof {
                assert(ms[i as int] == result.messages@[i as int]@);
            }
            let is_error = match result.messages[i].message_type {
                ValidationMessageType::Error => true,
                _ => false,
            };
            if is_error {
                block.append("  - ERROR: ");
                block.append(result.messages[i].text.as_str());
                block.append("\n");
                proof {
                    assert(block@ =~= pre + ("  - ERROR: "@ + ms[i as int].text + "\n"@));
                }
            }
            proof {
                assert(pre + (("  - ERROR: "@ + ms[i as int].text + "\n"@) + error_lines(
                    ms,
                    i + 1,
                )) =~= pre + ("  - ERROR: "@ + ms[i as int].text + "\n"@) + error_lines(ms, i + 1));
                assert(pre + (Seq::<char>::empty() + error_lines(ms, i + 1)) =~= pre + error_lines(
                    ms,
                    i + 1,
                ));
            }
            i = i + 1;
        }
        proof {
            assert(error_lines(ms, ms.len() as int) =~= Seq::<char>::empty());
            assert(block@ + Seq::<char>::empty() =~= block@);
        }
    }
    block.append("\n");
    proof {
        assert(block@ =~= verdict_block(num + 1, result@));
    }
    block
}

/// Render the validation results: the count of accepted fixes, then one
/// block per verdict, with the severity and the error findings of each
/// rejected fix.
pub fn format_validation_results(results: &Vec<ValidationResult>) -> (r: String)
    ensures
        r@ == spec_validation_report(results.deep_view()),
{
    let ghost rs = results.deep_view();
    let mut valid_count: usize = 0;
    let mut i: usize = 0;
    proof {
        assert(rs.skip(0) =~= rs);
    }
    while i < results.len()
        invariant
            i <= rs.len(),
            rs.len() == results@.len(),
            rs == results.deep_view(),
            valid_count <= i,
            count_valid_from(rs, 0) == valid_count + count_valid_from(rs, i as int),
        decreases rs.len() - i,
    {
        proof {
            assert(rs[i as int] == results@[i as int]@);
        }
        if results[i].is_valid {
            valid_count = valid_count + 1;
        }
        i = i + 1;
    }
    let mut out = String::new();
    out.append("Validation Results: ");
    let valid_text = usize_to_string(valid_count);
    out.append(valid_text.as_str());
    out.append("/");
    let total_text = usize_to_string(results.len());
    out.append(total_text.as_str());
    out.append(" fixes are valid\n\n");
    proof {
        assert(out@ =~= "Validation Results: "@ + dec_str(count_valid_from(rs, 0)) + "/"@
            + dec_str(rs.len()) + " fixes are valid\n\n"@);
    }
    let mut j: usize = 0;
    proof {
        assert(out@ + verdict_blocks(rs, 0) =~= spec_validation_report(rs));
    }
    while j < results.len()
        invariant
            j <= rs.len(),
            rs.len() == results@.len(),
            rs == results.deep_view(),
            spec_validation_report(rs) == out@ + verdict_blocks(rs, j as int),
        decreases rs.len() - j,
    {
        let ghost pre = out@;
        let block = build_verdict_block(j, &results[j]);
        out.append(block.as_str());
        proof {
            assert(rs[j as int] == results@[j as int]@);
            assert(pre + (verdict_block(j + 1, rs[j as int]) + verdict_blocks(rs, j + 1)) =~= out@
                + verdict_blocks(rs, j + 1));
        }
        j = j + 1;
    }
    proof {
        assert(verdict_blocks(rs, rs.len() as int) =~= Seq::<char>::empty());
        assert(out@ + Seq::<char>::empty() =~= out@);
    }
    out
}


// ---------------------------------------------------------------------
// Rendering analysis results.
// ---------------------------------------------------------------------

/// The rendered label of an analysis severity.
pub open spec fn severity_label(s: Severity) -> Seq<char> {
    match s {
        Severity::Error => "Error"@,
        Severity::Warning => "Warning"@,
        Severity::Info => "Info"@,
        Severity::Style => "Style"@,
    }
}

/// Render the label of an analysis severity.
pub fn severity_label_str(s: &Severity) -> (r: &'static str)
    ensures
        r@ == severity_label(*s),
{
    match s {
        Severity::Error => "Error",
        Severity::Warning => "Warning",
        Severity::Info => "Info",
        Severity::Style => "Style",
    }
}

/// The rendered label of an issue category; a custom rule is labelled
/// with its name.
pub open spec fn category_label(c: IssueCategoryModel) -> Seq<char> {
    match c {
        IssueCategoryModel::Syntax => "Syntax"@,
        IssueCategoryModel::Semantic => "Semantic"@,
        IssueCategoryModel::Style => "Style"@,
        IssueCategoryModel::Performance => "Performance"@,
        IssueCategoryModel::Security => "Security"@,
        IssueCategoryModel::TauriCompatibility => "TauriCompatibility"@,
        IssueCategoryModel::CodeQuality => "CodeQuality"@,
        IssueCategoryModel::CustomRule(name) => "CustomRule("@ + name + ")"@,
    }
}

/// Render the label of an issue category.
pub fn category_label_string(c: &IssueCategory) -> (r: String)
    ensures
        r@ == category_label(c@),
{
    match c {
        IssueCategory::Syntax => "Syntax".to_owned(),
        IssueCategory::Semantic => "Semantic".to_owned(),
        IssueCategory::Style => "Style".to_owned(),
        IssueCategory::Performance => "Performance".to_owned(),
        IssueCategory::Security => "Security".to_owned(),
        IssueCategory::TauriCompatibility => "TauriCompatibility".to_owned(),
        IssueCategory::CodeQuality => "CodeQuality".to_owned(),
        IssueCategory::CustomRule(name) => concat3("CustomRule(", name.as_str(), ")"),
    }
}

/// The total number of issues over the results from index `i` on.
pub open spec fn total_issues_from(rs: Seq<AnalysisResultModel>, i: int) -> nat
    decreases rs.len() - i,
{
    if i < 0 || i >= rs.len() {
        0
    } else {
        rs[i].issues.len() + total_issues_from(rs, i + 1)
    }
}

/// The number of results from index `i` on that hold at least one issue.
pub open spec fn files_with_issues_from(rs: Seq<AnalysisResultModel>, i: int) -> nat
    decreases rs.len() - i,
{
    if i < 0 || i >= rs.len() {
        0
    } else {
        (if rs[i].issues.len() > 0 {
            1nat
        } else {
            0nat
        }) + files_with_issues_from(rs, i + 1)
    }
}

/// The markdown block of one issue.
pub open spec fn markdown_issue(issue: CodeIssueModel) -> Seq<char> {
    "### Issue at "@ + issue.file_path + ":"@ + dec_str(issue.line_start as nat) + "-"@ + dec_str(
        issue.line_end as nat,
    ) + "\n\n"@ + "**Category**: "@ + category_label(issue.category) + "\n\n"@ + "**Severity**: "@
        + severity_label(issue.severity) + "\n\n"@ + "**Message**: "@ + issue.message + "\n\n"@
        + (match issue.suggested_fix {
        Some(f) => "**Suggested Fix**:\n\n"@ + "```rust\n"@ + f.replacement_code + "\n```\n\n"@
            + "Confidence: "@ + dec_str(f.confidence as nat) + "%\n\n"@,
        None => Seq::empty(),
    }) + "---\n\n"@
}

/// The markdown blocks of the issues of one result from index `j` on.
pub open spec fn markdown_issues_from(issues: Seq<CodeIssueModel>, j: int) -> Seq<char>
    decreases issues.len() - j,
{
    if j < 0 || j >= issues.len() {
        Seq::empty()
    } else {
        markdown_issue(issues[j]) + markdown_issues_from(issues, j + 1)
    }
}

/// The markdown section of one result; a result without issues renders
/// nothing.
pub open spec fn markdown_file_section(r: AnalysisResultModel) -> Seq<char> {
    if r.issues.len() == 0 {
        Seq::empty()
    } else {
        "## "@ + r.file_path + "\n\n"@ + markdown_issues_from(r.issues, 0)
    }
}

/// The markdown sections of the results from index `i` on.
pub open spec fn markdown_sections_from(rs: Seq<AnalysisResultModel>, i: int) -> Seq<char>
    decreases rs.len() - i,
{
    if i < 0 || i >= rs.len() {
        Seq::empty()
    } else {
        markdown_file_section(rs[i]) + markdown_sections_from(rs, i + 1)
    }
}

/// The markdown rendering of a list of analysis results.
pub open spec fn spec_markdown_report(rs: Seq<AnalysisResultModel>) -> Seq<char> {
    "# Rust AI Tool Analysis Results\n\n"@ + "**Total Issues Found**: "@ + dec_str(
        total_issues_from(rs, 0),
    ) + "\n\n"@ + markdown_sections_from(rs, 0)
}

/// Render the markdown block of one issue.
fn build_markdown_issue(issue: &CodeIssue) -> (r: String)
    ensures
        r@ == markdown_issue(issue@),
{
    let mut block = String::new();
    block.append("### Issue at ");
    block.append(issue.file_path.as_str());
    block.append(":");
    let start = usize_to_string(issue.line_start);
    block.append(start.as_str());
    block.append("-");
    let end = usize_to_string(issue.line_end);
    block.append(end.as_str());
    block.append("\n\n");
    block.append("**Category**: ");
    let category = category_label_string(&issue.category);
    block.append(category.as_str());
    block.append("\n\n");
    block.append("**Severity**: ");
    block.append(severity_label_str(&issue.severity));
    block.append("\n\n");
    block.append("**Message**: ");
    block.append(issue.message.as_str());
    block.append("\n\n");
    proof {
        assert(block@ =~= "### Issue at "@ + issue@.file_path + ":"@ + dec_str(
            issue@.line_start as nat,
        ) + "-"@ + dec_str(issue@.line_end as nat) + "\n\n"@ + "**Category**: "@ + category_label(
            issue@.category,
        ) + "\n\n"@ + "**Severity**: "@ + severity_label(issue@.severity) + "\n\n"@
            + "**Message**: "@ + issue@.message + "\n\n"@);
    }
    let ghost head = block@;
    match &issue.suggested_fix {
        Some(f) => {
            block.append("**Suggested Fix**:\n\n");
            block.append("```rust\n");
            block.append(f.replacement_code.as_str());
            block.append("\n```\n\n");
            block.append("Confidence: ");
            let confidence = usize_to_string(f.confidence as usize);
            block.append(confidence.as_str());
            block.append("%\n\n");
            proof {
                assert(block@ =~= head + ("**Suggested Fix**:\n\n"@ + "```rust\n"@
                    + issue@.suggested_fix->0.replacement_code + "\n```\n\n"@ + "Confidence: "@
                    + dec_str(issue@.suggested_fix->0.confidence as nat) + "%\n\n"@));
            }
        },
        None => {},
    }
    block.append("---\n\n");
    proof {
        assert(block@ =~= markdown_issue(issue@));
    }
    block
}

/// Render the markdown section of one result.
fn build_markdown_section(result: &AnalysisResult) -> (r: String)
    ensures
        r@ == markdown_file_section(result@),
{
    let mut section = String::new();
    if result.issues.len() == 0 {
        proof {
            assert(section@ =~= markdown_file_section(result@));
        }
        return section;
    }
    section.append("## ");
    section.append(result.file_path.as_str());
    section.append("\n\n");
    let ghost issues = result.issues.deep_view();
    proof {
        assert(section@ =~= "## "@ + result@.file_path + "\n\n"@);
        assert(section@ + markdown_issues_from(issues, 0) =~= markdown_file_section(result@));
    }
    let mut j: usize = 0;
    while j < result.issues.len()
        invariant
            j <= issues.len(),
            issues.len() == result.issues@.len(),
            issues == result.issues.deep_view(),
            markdown_file_section(result@) == section@ + markdown_issues_from(issues, j as int),
        decreases issues.len() - j,
    {
        let ghost pre = section@;
        let block = build_markdown_issue(&result.issues[j]);
        section.append(block.as_str());
        proof {
            assert(issues[j as int] == result.issues@[j as int]@);
            assert(pre + (markdown_issue(issues[j as int]) + markdown_issues_from(issues, j + 1))
                =~= section@ + markdown_issues_from(issues, j + 1));
        }
        j = j + 1;
    }
    proof {
        assert(markdown_issues_from(issues, issues.len() as int) =~= Seq::<char>::empty());
        assert(section@ + Seq::<char>::empty() =~= section@);
    }
    section
}

/// Render a list of analysis results as a markdown report: the total
/// issue count, then one section per file with issues.
pub fn format_analysis_results_markdown(results: &Vec<AnalysisResult>) -> (r: String)
    requires
        total_issues_from(results.deep_view(), 0) <= usize::MAX,
    ensures
        r@ == spec_markdown_report(results.deep_view()),
{
    let ghost rs = results.deep_view();
    let mut total: usize = 0;
    let mut i: usize = 0;
    proof {
        assert(rs.skip(0) =~= rs);
    }
    while i < results.len()
        invariant
            i <= rs.len(),
            rs.len() == results@.len(),
            rs == results.deep_view(),
            total_issues_from(rs, 0) == total + total_issues_from(rs, i as int),
        decreases rs.len() - i,
    {
        proof {
            assert(rs[i as int] == results@[i as int]@);
            assert(total + results@[i as int].issues@.len() <= usize::MAX) by {
                assert(total_issues_from(rs, i as int) >= rs[i as int].issues.len());
            }
        }
        total = total + results[i].issues.len();
        i = i + 1;
    }
    let mut out = String::new();
    out.append("# Rust AI Tool Analysis Results\n\n");
    out.append("**Total Issues Found**: ");
    let total_text = usize_to_string(total);
    out.append(total_text.as_str());
    out.append("\n\n");
    proof {
        assert(out@ =~= "# Rust AI Tool Analysis Results\n\n"@ + "**Total Issues Found**: "@
            + dec_str(total_issues_from(rs, 0)) + "\n\n"@);
        assert(out@ + markdown_sections_from(rs, 0) =~= spec_markdown_report(rs));
    }
    let mut j: usize = 0;
    while j < results.len()
        invariant
            j <= rs.len(),
            rs.len() == results@.len(),
            rs == results.deep_view(),
            spec_markdown_report(rs) == out@ + markdown_sections_from(rs, j as int),
        decreases rs.len() - j,
    {
        let ghost pre = out@;
        let section = build_markdown_section(&results[j]);
        out.append(section.as_str());
        proof {
            assert(rs[j as int] == results@[j as int]@);
            assert(pre + (markdown_file_section(rs[j as int]) + markdown_sections_from(rs, j + 1))
                =~= out@ + markdown_sections_from(rs, j + 1));
        }
        j = j + 1;
    }
    proof {
        assert(markdown_sections_from(rs, rs.len() as int) =~= Seq::<char>::empty());
        assert(out@ + Seq::<char>::empty() =~= out@);
    }
    out
}


/// The indented rendering of the replacement lines from index `j` on.
pub open spec fn console_fix_lines(lines: Seq<Seq<char>>, j: int) -> Seq<char>
    decreases lines.len() - j,
{
    if j < 0 || j >= lines.len() {
        Seq::empty()
    } else {
        "      "@ + lines[j] + "\n"@ + console_fix_lines(lines, j + 1)
    }
}

/// The console block of the issue numbered `num`.
pub open spec fn console_issue(num: int, issue: CodeIssueModel) -> Seq<char> {
    "  Issue #"@ + dec_str(num as nat) + ": "@ + issue.file_path + ":"@ + dec_str(
        issue.line_start as nat,
    ) + "-"@ + dec_str(issue.line_end as nat) + " ("@ + category_label(issue.category) + ", "@
        + severity_label(issue.severity) + ")\n"@ + "    Message: "@ + issue.message + "\n"@
        + (match issue.suggested_fix {
        Some(f) => "    Suggested Fix:\n"@ + console_fix_lines(split_lines(f.replacement_code), 0)
            + "    Confidence: "@ + dec_str(f.confidence as nat) + "%\n"@,
        None => Seq::empty(),
    }) + "\n"@
}

/// The console blocks of the issues from index `j` on, numbered from
/// `j + 1`.
pub open spec fn console_issues_from(issues: Seq<CodeIssueModel>, j: int) -> Seq<char>
    decreases issues.len() - j,
{
    if j < 0 || j >= issues.len() {
        Seq::empty()
    } else {
        console_issue(j + 1, issues[j]) + console_issues_from(issues, j + 1)
    }
}

/// The console section of one result; a result without issues renders
/// nothing.
pub open spec fn console_file_section(r: AnalysisResultModel) -> Seq<char> {
    if r.issues.len() == 0 {
        Seq::empty()
    } else {
        "File: "@ + r.file_path + "\n"@ + console_issues_from(r.issues, 0) + "---\n\n"@
    }
}

/// The console sections of the results from index `i` on.
pub open spec fn console_sections_from(rs: Seq<AnalysisResultModel>, i: int) -> Seq<char>
    decreases rs.len() - i,
{
    if i < 0 || i >= rs.len() {
        Seq::empty()
    } else {
        console_file_section(rs[i]) + console_sections_from(rs, i + 1)
    }
}

/// The console rendering of a list of analysis results.
pub open spec fn spec_console_report(rs: Seq<AnalysisResultModel>) -> Seq<char> {
    "Found "@ + dec_str(total_issues_from(rs, 0)) + " issues in "@ + dec_str(
        files_with_issues_from(rs, 0),
    ) + " files\n\n"@ + console_sections_from(rs, 0)
}

/// Render the console block of one issue, numbered `num`.
fn build_console_issue(num: usize, issue: &CodeIssue) -> (r: String)
    requires
        num < usize::MAX,
    ensures
        r@ == console_issue(num + 1, issue@),
{
    let mut block = String::new();
    block.append("  Issue #");
    let num_text = usize_to_string(num + 1);
    block.append(num_text.as_str());
    block.append(": ");
    block.append(issue.file_path.as_str());
    block.append(":");
    let start = usize_to_string(issue.line_start);
    block.append(start.as_str());
    block.append("-");
    let end = usize_to_string(issue.line_end);
    block.append(end.as_str());
    block.append(" (");
    let category = category_label_string(&issue.category);
    block.append(category.as_str());
    block.append(", ");
    block.append(severity_label_str(&issue.severity));
    block.append(")\n");
    block.append("    Message: ");
    block.append(issue.message.as_str());
    block.append("\n");
    proof {
        assert(block@ =~= "  Issue #"@ + dec_str((num + 1) as nat) + ": "@ + issue@.file_path
            + ":"@ + dec_str(issue@.line_start as nat) + "-"@ + dec_str(issue@.line_end as nat)
            + " ("@ + category_label(issue@.category) + ", "@ + severity_label(issue@.severity)
            + ")\n"@ + "    Message: "@ + issue@.message + "\n"@);
    }
    let ghost head = block@;
    match &issue.suggested_fix {
        Some(f) => {
            block.append("    Suggested Fix:\n");
            let ghost mid0 = block@;
            let chars = chars_vec(f.replacement_code.as_str());
            let lines = split_lines_exec(&chars);
            let ghost ls = lines.deep_view();
            let mut j: usize = 0;
            proof {
                assert(ls =~= split_lines(issue@.suggested_fix->0.replacement_code));
                assert(mid0 + console_fix_lines(ls, 0) =~= head + ("    Suggested Fix:\n"@
                    + console_fix_lines(ls, 0)));
            }
            while j < lines.len()
                invariant
                    j <= ls.len(),
                    ls.len() == lines@.len(),
                    ls == lines.deep_view(),
                    mid0 + console_fix_lines(ls, 0) == block@ + console_fix_lines(ls, j as int),
                decreases ls.len() - j,
            {
                let ghost pre = block@;
                block.append("      ");
                block.append(lines[j].as_str());
                block.append("\n");
                proof {
                    assert(ls[j as int] == lines@[j as int]@);
                    assert(block@ =~= pre + ("      "@ + ls[j as int] + "\n"@));
                    assert(pre + (("      "@ + ls[j as int] + "\n"@) + console_fix_lines(
                        ls,
                        j + 1,
                    )) =~= block@ + console_fix_lines(ls, j + 1));
                }
                j = j + 1;
            }
            proof {
                assert(console_fix_lines(ls, ls.len() as int) =~= Seq::<char>::empty());
                assert(block@ + Seq::<char>::empty() =~= block@);
            }
            block.append("    Confidence: ");
            let confidence = usize_to_string(f.confidence as usize);
            block.append(confidence.as_str());
            block.append("%\n");
            proof {
                assert(block@ =~= head + ("    Suggested Fix:\n"@ + console_fix_lines(
                    split_lines(issue@.suggested_fix->0.replacement_code),
                    0,
                ) + "    Confidence: "@ + dec_str(issue@.suggested_fix->0.confidence as nat)
                    + "%\n"@));
            }
        },
        None => {},
    }
    block.append("\n");
    proof {
        assert(block@ =~= console_issue(num + 1, issue@));
    }
    block
}

/// Render the console section of one result.
fn build_console_section(result: &AnalysisResult) -> (r: String)
    ensures
        r@ == console_file_section(result@),
{
    let mut section = String::new();
    if result.issues.len() == 0 {
        proof {
            assert(section@ =~= console_file_section(result@));
        }
        return section;
    }
    section.append("File: ");
    section.append(result.file_path.as_str());
    section.append("\n");
    let ghost issues = result.issues.deep_view();
    proof {
        assert(section@ =~= "File: "@ + result@.file_path + "\n"@);
        assert(section@ + (console_issues_from(issues, 0) + "---\n\n"@)
            =~= console_file_section(result@));
    }
    let mut j: usize = 0;
    while j < result.issues.len()
        invariant
            j <= issues.len(),
            issues.len() == result.issues@.len(),
            issues == result.issues.deep_view(),
            console_file_section(result@) == section@ + (console_issues_from(issues, j as int)
                + "---\n\n"@),
        decreases issues.len() - j,
    {
        let ghost pre = section@;
        let block = build_console_issue(j, &result.issues[j]);
        section.append(block.as_str());
        proof {
            assert(issues[j as int] == result.issues@[j as int]@);
            assert(pre + ((console_issue(j + 1, issues[j as int]) + console_issues_from(
                issues,
                j + 1,
            )) + "---\n\n"@) =~= section@ + (console_issues_from(issues, j + 1) + "---\n\n"@));
        }
        j = j + 1;
    }
    section.append("---\n\n");
    proof {
        assert(console_issues_from(issues, issues.len() as int) =~= Seq::<char>::empty());
        assert(section@ =~= console_file_section(result@));
    }
    section
}

/// Render a list of analysis results for the console: the issue and
/// file counts, then one section per file with issues.
pub fn format_analysis_results_console(results: &Vec<AnalysisResult>) -> (r: String)
    requires
        total_issues_from(results.deep_view(), 0) <= usize::MAX,
    ensures
        r@ == spec_console_report(results.deep_view()),
{
    let ghost rs = results.deep_view();
    let mut total: usize = 0;
    let mut with_issues: usize = 0;
    let mut i: usize = 0;
    proof {
        assert(rs.skip(0) =~= rs);
    }
    while i < results.len()
        invariant
            i <= rs.len(),
            rs.len() == results@.len(),
            rs == results.deep_view(),
            with_issues <= i,
            total_issues_from(rs, 0) == total + total_issues_from(rs, i as int),
            files_with_issues_from(rs, 0) == with_issues + files_with_issues_from(rs, i as int),
        decreases rs.len() - i,
    {
        proof {
            assert(rs[i as int] == results@[i as int]@);
            assert(total + results@[i as int].issues@.len() <= usize::MAX) by {
                assert(total_issues_from(rs, i as int) >= rs[i as int].issues.len());
            }
        }
        total = total + results[i].issues.len();
        if results[i].issues.len() > 0 {
            with_issues = with_issues + 1;
        }
        i = i + 1;
    }
    let mut out = String::new();
    out.append("Found ");
    let total_text = usize_to_string(total);
    out.append(total_text.as_str());
    out.append(" issues in ");
    let files_text = usize_to_string(with_issues);
    out.append(files_text.as_str());
    out.append(" files\n\n");
    proof {
        assert(out@ =~= "Found "@ + dec_str(total_issues_from(rs, 0)) + " issues in "@ + dec_str(
            files_with_issues_from(rs, 0),
        ) + " files\n\n"@);
        assert(out@ + console_sections_from(rs, 0) =~= spec_console_report(rs));
    }
    let mut j: usize = 0;
    while j < results.len()
        invariant
            j <= rs.len(),
            rs.len() == results@.len(),
            rs == results.deep_view(),
            spec_console_report(rs) == out@ + console_sections_from(rs, j as int),
        decreases rs.len() - j,
    {
        let ghost pre = out@;
        let section = build_console_section(&results[j]);
        out.append(section.as_str());
        proof {
            assert(rs[j as int] == results@[j as int]@);
            assert(pre + (console_file_section(rs[j as int]) + console_sections_from(rs, j + 1))
                =~= out@ + console_sections_from(rs, j + 1));
        }
        j = j + 1;
    }
    proof {
        assert(console_sections_from(rs, rs.len() as int) =~= Seq::<char>::empty());
        assert(out@ + Seq::<char>::empty() =~= out@);
    }
    out
}

} // verus!
