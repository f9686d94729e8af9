//! Validation of suggested code fixes.
//!
//! A fix is validated by an ordered sequence of passes (syntax, semantic
//! heuristics, structural invariants, command-registration compatibility,
//! security heuristics). Each pass contributes findings and a severity;
//! the severities are aggregated over the severity lattice
//! `None < Minor < Major < Critical` by taking the maximum, and a fix is
//! accepted exactly when the aggregate is `None` or `Minor`.

use vstd::prelude::*;
use crate::Result;
use crate::ValidationOptions;
use crate::extract::extract_cfg_attributes;
use crate::extract::extract_commands_from;
use crate::extract::extract_features;
use crate::extract::extract_invoke_handlers;
use crate::extract::extract_modules;
use crate::extract::extract_tauri_commands;
use crate::extract::count_function_calls;
use crate::extract::count_sensitive_from;
use crate::extract::count_sensitive_unwraps;
use crate::extract::count_unsafe_blocks;
use crate::extract::spec_count_calls;
use crate::extract::spec_count_unsafe;
use crate::extract::spec_extract_cfgs;
use crate::extract::spec_extract_features;
use crate::extract::spec_extract_handlers;
use crate::extract::spec_extract_modules;
use crate::syntax::count_syntax_errors;
use crate::syntax::syntax_error_spans;
use crate::text::any_contains;
use crate::text::concat3;
use crate::text::contains_seq;
use crate::text::contains_sub;
use crate::text::contains_string;
use crate::text::dec_str;
use crate::text::string_vecs_equal;
use crate::text::usize_to_string;

verus! {

/// Severity of validation issues, ordered by [`rank`]:
/// `NoIssues < Minor < Major < Critical`.
#[derive(Debug, Clone, Copy, PartialEq, Eq, Structural)]
pub enum ValidationSeverity {
    /// Critical issue - the fix must not be applied.
    Critical,
    /// Major issue - the fix should not be applied.
    Major,
    /// Minor issue - the fix can be applied with caution.
    Minor,
    /// No issues found.
    NoIssues,
}

/// The explicit total order of the severity lattice. The order is defined
/// by this function, not by the declaration order of the variants.
pub open spec fn rank(s: ValidationSeverity) -> nat {
    match s {
        ValidationSeverity::Critical => 3,
        ValidationSeverity::Major => 2,
        ValidationSeverity::Minor => 1,
        ValidationSeverity::NoIssues => 0,
    }
}

/// The join of the severity lattice: the argument of larger rank.
pub open spec fn spec_combine(a: ValidationSeverity, b: ValidationSeverity) -> ValidationSeverity {
    if rank(b) > rank(a) {
        b
    } else {
        a
    }
}

/// A severity is accepted when it is below `Major`.
pub open spec fn severity_accepted(s: ValidationSeverity) -> bool {
    rank(s) < 2
}

/// The rendered name of a severity.
pub open spec fn severity_name(s: ValidationSeverity) -> Seq<char> {
    match s {
        ValidationSeverity::Critical => "Critical"@,
        ValidationSeverity::Major => "Major"@,
        ValidationSeverity::Minor => "Minor"@,
        ValidationSeverity::NoIssues => "None"@,
    }
}

impl ValidationSeverity {
    /// The rank of this severity in the lattice order.
    pub fn rank_value(&self) -> (r: u8)
        ensures
            r as nat == rank(*self),
    {
        match self {
            ValidationSeverity::Critical => 3,
            ValidationSeverity::Major => 2,
            ValidationSeverity::Minor => 1,
            ValidationSeverity::NoIssues => 0,
        }
    }

    /// The join of `self` and `other` in the lattice.
    pub fn combine(self, other: ValidationSeverity) -> (r: ValidationSeverity)
        ensures
            r == spec_combine(self, other),
    {
        if other.rank_value() > self.rank_value() {
            other
        } else {
            self
        }
    }

    /// The name of this severity; the lowest point of the lattice is
    /// named `None`.
    pub fn name(&self) -> (r: &'static str)
        ensures
            r@ == severity_name(*self),
    {
        match self {
            ValidationSeverity::Critical => "Critical",
            ValidationSeverity::Major => "Major",
            ValidationSeverity::Minor => "Minor",
            ValidationSeverity::NoIssues => "None",
        }
    }

    /// Whether a fix with this aggregate severity may be applied.
    pub fn is_valid(&self) -> (r: bool)
        ensures
            r == severity_accepted(*self),
    {
        match self {
            ValidationSeverity::Critical => false,
            ValidationSeverity::Major => false,
            ValidationSeverity::Minor => true,
            ValidationSeverity::NoIssues => true,
        }
    }
}

/// The lattice join is associative.
pub proof fn lemma_combine_associative(
    a: ValidationSeverity,
    b: ValidationSeverity,
    c: ValidationSeverity,
)
    ensures
        spec_combine(spec_combine(a, b), c) == spec_combine(a, spec_combine(b, c)),
{
}

/// `NoIssues` is the identity of the lattice join.
pub proof fn lemma_combine_identity(a: ValidationSeverity)
    ensures
        spec_combine(a, ValidationSeverity::NoIssues) == a,
        spec_combine(ValidationSeverity::NoIssues, a) == a,
{
}

/// The lattice join is commutative and idempotent.
pub proof fn lemma_combine_commutative(a: ValidationSeverity, b: ValidationSeverity)
    ensures
        spec_combine(a, b) == spec_combine(b, a),
        spec_combine(a, a) == a,
{
}

/// Types of validation messages.
#[derive(Debug, Clone, Copy, PartialEq, Eq, Structural)]
pub enum ValidationMessageType {
    /// Error that prevents applying the fix.
    Error,
    /// Warning that might indicate a problem.
    Warning,
    /// Informational message.
    Info,
}

/// Location in code.
#[derive(Debug, Clone, Copy, PartialEq, Eq, Structural)]
pub struct CodeLocation {
    /// Line number.
    pub line: usize,
    /// Column number.
    pub column: usize,
}

/// Message from validation.
#[derive(Debug, Clone)]
pub struct ValidationMessage {
    /// Type of validation message.
    pub message_type: ValidationMessageType,
    /// The message text.
    pub text: String,
    /// Location in the code, when relevant.
    pub location: Option<CodeLocation>,
}

/// Mathematical model of [`ValidationMessage`].
pub ghost struct MessageModel {
    pub message_type: ValidationMessageType,
    pub text: Seq<char>,
    pub location: Option<CodeLocation>,
}

impl View for ValidationMessage {
    type V = MessageModel;

    open spec fn view(&self) -> MessageModel {
        MessageModel {
            message_type: self.message_type,
            text: self.text@,
            location: self.location,
        }
    }
}

impl DeepView for ValidationMessage {
    type V = MessageModel;

    open spec fn deep_view(&self) -> MessageModel {
        self.view()
    }
}

/// A message of the given kind and text, without a location.
pub open spec fn message(k: ValidationMessageType, text: Seq<char>) -> MessageModel {
    MessageModel { message_type: k, text: text, location: None }
}

/// Partial result contributed by one validation pass: its findings and
/// its severity contribution.
#[derive(Debug)]
pub struct ValidationPartialResult {
    /// The findings of the pass, in the order they were made.
    pub messages: Vec<ValidationMessage>,
    /// The severity contribution of the pass.
    pub severity: ValidationSeverity,
}

/// Mathematical model of [`ValidationPartialResult`].
pub ghost struct PartialModel {
    pub messages: Seq<MessageModel>,
    pub severity: ValidationSeverity,
}

impl View for ValidationPartialResult {
    type V = PartialModel;

    open spec fn view(&self) -> PartialModel {
        PartialModel { messages: self.messages.deep_view(), severity: self.severity }
    }
}

impl ValidationPartialResult {
    /// A result with no findings and severity `NoIssues`.
    pub fn new() -> (r: ValidationPartialResult)
        ensures
            r@.messages == Seq::<MessageModel>::empty(),
            r@.severity == ValidationSeverity::NoIssues,
    {
        let r = ValidationPartialResult { messages: Vec::new(), severity: ValidationSeverity::NoIssues };
        proof {
            assert(r@.messages =~= Seq::<MessageModel>::empty());
        }
        r
    }

    /// Record a finding; the severity is left unchanged.
    pub fn add_message(
        &mut self,
        message_type: ValidationMessageType,
        text: String,
        location: Option<CodeLocation>,
    )
        ensures
            final(self)@.messages == old(self)@.messages.push(
                MessageModel { message_type, text: text@, location },
            ),
            final(self)@.severity == old(self)@.severity,
    {
        self.messages.push(ValidationMessage { message_type, text, location });
        proof {
            assert(self@.messages =~= old(self)@.messages.push(
                self.messages@.last().deep_view(),
            ));
        }
    }

    /// Record an error finding and raise the severity to `Major`, unless
    /// it already is `Critical`.
    pub fn add_error(&mut self, text: String, location: Option<CodeLocation>)
        ensures
            final(self)@.messages == old(self)@.messages.push(
                MessageModel { message_type: ValidationMessageType::Error, text: text@, location },
            ),
            final(self)@.severity == spec_combine(old(self)@.severity, ValidationSeverity::Major),
    {
        let is_critical = match self.severity {
            ValidationSeverity::Critical => true,
            _ => false,
        };
        self.add_message(ValidationMessageType::Error, text, location);
        if !is_critical {
            self.severity = ValidationSeverity::Major;
        }
    }

    /// Record an error finding and raise the severity to `Critical`.
    pub fn add_critical_error(&mut self, text: String, location: Option<CodeLocation>)
        ensures
            final(self)@.messages == old(self)@.messages.push(
                MessageModel { message_type: ValidationMessageType::Error, text: text@, location },
            ),
            final(self)@.severity == ValidationSeverity::Critical,
    {
        self.add_message(ValidationMessageType::Error, text, location);
        self.severity = ValidationSeverity::Critical;
    }

    /// Record a warning finding and raise the severity to `Minor` when no
    /// issue was recorded yet.
    pub fn add_warning(&mut self, text: String, location: Option<CodeLocation>)
        ensures
            final(self)@.messages == old(self)@.messages.push(
                MessageModel { message_type: ValidationMessageType::Warning, text: text@, location },
            ),
            final(self)@.severity == spec_combine(old(self)@.severity, ValidationSeverity::Minor),
    {
        let is_none = match self.severity {
            ValidationSeverity::NoIssues => true,
            _ => false,
        };
        self.add_message(ValidationMessageType::Warning, text, location);
        if is_none {
            self.severity = ValidationSeverity::Minor;
        }
    }

    /// Record an informational finding; the severity is left unchanged.
    pub fn add_info(&mut self, text: String, location: Option<CodeLocation>)
        ensures
            final(self)@.messages == old(self)@.messages.push(
                MessageModel { message_type: ValidationMessageType::Info, text: text@, location },
            ),
            final(self)@.severity == old(self)@.severity,
    {
        self.add_message(ValidationMessageType::Info, text, location);
    }
}

/// Result of validating a fix.
#[derive(Debug, Clone)]
pub struct ValidationResult {
    /// Path of the file the fix applies to.
    pub file_path: String,
    /// Whether the fix may be applied.
    pub is_valid: bool,
    /// All findings of the passes, in pass order.
    pub messages: Vec<ValidationMessage>,
    /// Aggregated severity over all passes.
    pub severity: ValidationSeverity,
}

/// Mathematical model of [`ValidationResult`].
pub ghost struct VerdictModel {
    pub file_path: Seq<char>,
    pub is_valid: bool,
    pub messages: Seq<MessageModel>,
    pub severity: ValidationSeverity,
}

impl View for ValidationResult {
    type V = VerdictModel;

    open spec fn view(&self) -> VerdictModel {
        VerdictModel {
            file_path: self.file_path@,
            is_valid: self.is_valid,
            messages: self.messages.deep_view(),
            severity: self.severity,
        }
    }
}

impl DeepView for ValidationResult {
    type V = VerdictModel;

    open spec fn deep_view(&self) -> VerdictModel {
        self.view()
    }
}

/// A code fix to validate.
#[derive(Debug, Clone)]
pub struct FixToValidate {
    /// Path of the file to modify.
    pub file_path: String,
    /// Original code.
    pub original_code: String,
    /// Modified code with the fix applied.
    pub modified_code: String,
    /// Description of the fix.
    pub description: String,
}

/// Mathematical model of [`FixToValidate`].
pub ghost struct FixModel {
    pub file_path: Seq<char>,
    pub original_code: Seq<char>,
    pub modified_code: Seq<char>,
    pub description: Seq<char>,
}

impl View for FixToValidate {
    type V = FixModel;

    open spec fn view(&self) -> FixModel {
        FixModel {
            file_path: self.file_path@,
            original_code: self.original_code@,
            modified_code: self.modified_code@,
            description: self.description@,
        }
    }
}

impl DeepView for FixToValidate {
    type V = FixModel;

    open spec fn deep_view(&self) -> FixModel {
        self.view()
    }
}


// ---------------------------------------------------------------------
// The validation passes.
// ---------------------------------------------------------------------

/// The findings and severity contribution of the syntax pass: a critical
/// error naming the error count when the external parser reports error
/// nodes for the proposed text, an informational finding otherwise.
pub open spec fn syntax_pass(code: Seq<char>) -> PartialModel {
    if syntax_error_spans(code).len() > 0 {
        PartialModel {
            messages: seq![
                message(
                    ValidationMessageType::Error,
                    "Found "@ + dec_str(syntax_error_spans(code).len())
                        + " syntax errors in the modified code"@,
                ),
            ],
            severity: ValidationSeverity::Critical,
        }
    } else {
        PartialModel {
            messages: seq![message(ValidationMessageType::Info, "Syntax validation passed"@)],
            severity: ValidationSeverity::NoIssues,
        }
    }
}

/// Idempotence of the syntax pass: on identical text it yields identical
/// findings and the same severity. Together with the contract of
/// [`validate_syntax`], two runs on the same text return equal results.
pub proof fn lemma_syntax_pass_idempotent(a: Seq<char>, b: Seq<char>)
    requires
        a == b,
    ensures
        syntax_pass(a).messages == syntax_pass(b).messages,
        syntax_pass(a).severity == syntax_pass(b).severity,
{
}

/// Run the syntax pass on the proposed text.
pub fn validate_syntax(code: &str) -> (r: ValidationPartialResult)
    ensures
        r@ == syntax_pass(code@),
{
    let mut result = ValidationPartialResult::new();
    let error_count = count_syntax_errors(code);
    if error_count > 0 {
        let num = usize_to_string(error_count);
        let text = concat3("Found ", num.as_str(), " syntax errors in the modified code");
        result.add_critical_error(text, None);
        proof {
            assert(result@.messages =~= syntax_pass(code@).messages);
        }
    } else {
        result.add_info("Syntax validation passed".to_owned(), None);
        proof {
            assert(result@.messages =~= syntax_pass(code@).messages);
        }
    }
    result
}

/// The findings and severity contribution of the semantic-heuristic
/// pass: textual checks for an unresolved-macro marker and for TODO or
/// FIXME markers. This pass is a heuristic, not a semantic checker.
pub open spec fn semantic_pass(code: Seq<char>) -> PartialModel {
    let has_macro = contains_seq(code, "unresolved_macro!"@);
    let has_todo = contains_seq(code, "TODO"@) || contains_seq(code, "FIXME"@);
    PartialModel {
        messages: (if has_macro {
            seq![message(ValidationMessageType::Error, "Code contains unresolved macros"@)]
        } else {
            Seq::empty()
        }) + (if has_todo {
            seq![
                message(ValidationMessageType::Warning, "Code contains TODO or FIXME comments"@),
            ]
        } else {
            Seq::empty()
        }) + (if !has_macro && !has_todo {
            seq![message(ValidationMessageType::Info, "Semantic validation passed"@)]
        } else {
            Seq::empty()
        }),
        severity: if has_macro {
            ValidationSeverity::Major
        } else if has_todo {
            ValidationSeverity::Minor
        } else {
            ValidationSeverity::NoIssues
        },
    }
}

/// Run the semantic-heuristic pass on the proposed text. The path is
/// carried for interface compatibility and does not influence the
/// result.
pub fn validate_semantics(_file_path: &str, code: &str) -> (r: ValidationPartialResult)
    ensures
        r@ == semantic_pass(code@),
{
    let mut result = ValidationPartialResult::new();
    let has_macro = contains_sub(code, "unresolved_macro!");
    let has_todo = contains_sub(code, "TODO") || contains_sub(code, "FIXME");
    if has_macro {
        result.add_error("Code contains unresolved macros".to_owned(), None);
    }
    if has_todo {
        result.add_warning("Code contains TODO or FIXME comments".to_owned(), None);
    }
    if !has_macro && !has_todo {
        result.add_info("Semantic validation passed".to_owned(), None);
    }
    proof {
        assert(result@.messages =~= semantic_pass(code@).messages);
    }
    result
}

/// One error message for each item of `items` that is missing from
/// `present`, in order; the message text is `pre`, the item, `post`.
pub open spec fn removed_item_msgs(
    items: Seq<Seq<char>>,
    present: Seq<Seq<char>>,
    pre: Seq<char>,
    post: Seq<char>,
) -> Seq<MessageModel>
    decreases items.len(),
{
    if items.len() == 0 {
        Seq::empty()
    } else {
        (if !present.contains(items[0]) {
            seq![message(ValidationMessageType::Error, pre + items[0] + post)]
        } else {
            Seq::empty()
        }) + removed_item_msgs(items.skip(1), present, pre, post)
    }
}

/// Append, for each item of `items` missing from `present`, an error
/// message built from `pre`, the item and `post`.
fn add_removed_item_errors(
    result: &mut ValidationPartialResult,
    items: &Vec<String>,
    present: &Vec<String>,
    pre: &str,
    post: &str,
)
    ensures
        final(result)@.messages == old(result)@.messages + removed_item_msgs(
            items.deep_view(),
            present.deep_view(),
            pre@,
            post@,
        ),
        final(result)@.severity == spec_combine(
            old(result)@.severity,
            if removed_item_msgs(items.deep_view(), present.deep_view(), pre@, post@).len() > 0 {
                ValidationSeverity::Major
            } else {
                ValidationSeverity::NoIssues
            },
        ),
{
    let ghost items_s = items.deep_view();
    let ghost present_s = present.deep_view();
    let ghost base_msgs = result@.messages;
    let ghost base_sev = result@.severity;
    let mut i: usize = 0;
    proof {
        assert(items_s.skip(0) =~= items_s);
    }
    while i < items.len()
        invariant
            i <= items_s.len(),
            items_s.len() == items@.len(),
            items_s == items.deep_view(),
            present_s == present.deep_view(),
            base_msgs + removed_item_msgs(items_s, present_s, pre@, post@) == result@.messages
                + removed_item_msgs(items_s.skip(i as int), present_s, pre@, post@),
            result@.severity == spec_combine(
                base_sev,
                if result@.messages.len() > base_msgs.len() {
                    ValidationSeverity::Major
                } else {
                    ValidationSeverity::NoIssues
                },
            ),
            result@.messages.len() >= base_msgs.len(),
        decreases items_s.len() - i,
    {
        proof {
            assert(items_s.skip(i as int)[0] == items_s[i as int]);
            assert(items_s.skip(i as int).skip(1) =~= items_s.skip(i + 1));
            assert(items_s[i as int] == items@[i as int]@);
        }
        let ghost pre_msgs = result@.messages;
        if !contains_string(present, items[i].as_str()) {
            let text = concat3(pre, items[i].as_str(), post);
            result.add_error(text, None);
            proof {
                assert(pre_msgs + (seq![
                    message(ValidationMessageType::Error, pre@ + items_s[i as int] + post@),
                ] + removed_item_msgs(items_s.skip(i + 1), present_s, pre@, post@)) =~= result@.messages
                    + removed_item_msgs(items_s.skip(i + 1), present_s, pre@, post@));
            }
        }
        i = i + 1;
    }
    proof {
        assert(removed_item_msgs(items_s.skip(items_s.len() as int), present_s, pre@, post@)
            =~= Seq::<MessageModel>::empty());
        assert(result@.messages + Seq::<MessageModel>::empty() =~= result@.messages);
    }
}

/// The findings and severity contribution of the structural-invariant
/// pass: declared features, conditional-compilation attributes and
/// sub-module declarations must be preserved by the proposed text.
pub open spec fn structural_pass(orig: Seq<char>, modi: Seq<char>) -> PartialModel {
    let features_changed = spec_extract_features(orig) != spec_extract_features(modi);
    let cfgs_changed = spec_extract_cfgs(orig) != spec_extract_cfgs(modi);
    let mod_msgs = removed_item_msgs(
        spec_extract_modules(orig),
        spec_extract_modules(modi),
        "Module '"@,
        "' was removed"@,
    );
    let clean = !features_changed && !cfgs_changed && mod_msgs.len() == 0;
    PartialModel {
        messages: (if features_changed {
            seq![message(ValidationMessageType::Error, "Crate features were modified"@)]
        } else {
            Seq::empty()
        }) + (if cfgs_changed {
            seq![
                message(
                    ValidationMessageType::Error,
                    "Conditional compilation directives were modified"@,
                ),
            ]
        } else {
            Seq::empty()
        }) + mod_msgs + (if clean {
            seq![
                message(ValidationMessageType::Info, "Structural integrity validation passed"@),
            ]
        } else {
            Seq::empty()
        }),
        severity: if clean {
            ValidationSeverity::NoIssues
        } else {
            ValidationSeverity::Major
        },
    }
}

/// Run the structural-invariant pass over the original and the proposed
/// text.
pub fn validate_structural_integrity(original: &str, modified: &str) -> (r:
    ValidationPartialResult)
    ensures
        r@ == structural_pass(original@, modified@),
{
    let mut result = ValidationPartialResult::new();
    let original_features = extract_features(original);
    let modified_features = extract_features(modified);
    if !string_vecs_equal(&original_features, &modified_features) {
        result.add_error("Crate features were modified".to_owned(), None);
    }
    let original_cfgs = extract_cfg_attributes(original);
    let modified_cfgs = extract_cfg_attributes(modified);
    if !string_vecs_equal(&original_cfgs, &modified_cfgs) {
        result.add_error("Conditional compilation directives were modified".to_owned(), None);
    }
    let original_mods = extract_modules(original);
    let modified_mods = extract_modules(modified);
    add_removed_item_errors(
        &mut result,
        &original_mods,
        &modified_mods,
        "Module '",
        "' was removed",
    );
    let is_clean = match result.severity {
        ValidationSeverity::NoIssues => true,
        _ => false,
    };
    if is_clean {
        result.add_info("Structural integrity validation passed".to_owned(), None);
    }
    proof {
        assert(result@.messages =~= structural_pass(original@, modified@).messages);
    }
    result
}

/// Some registration of `handlers` mentions `cmd`.
pub open spec fn handler_covers(handlers: Seq<Seq<char>>, cmd: Seq<char>) -> bool {
    exists|k: int| 0 <= k < handlers.len() && contains_seq(#[trigger] handlers[k], cmd)
}

/// One warning for each command of `cmds` that no registration of
/// `handlers` mentions, in order.
pub open spec fn unregistered_msgs(cmds: Seq<Seq<char>>, handlers: Seq<Seq<char>>) -> Seq<
    MessageModel,
>
    decreases cmds.len(),
{
    if cmds.len() == 0 {
        Seq::empty()
    } else {
        (if !handler_covers(handlers, cmds[0]) {
            seq![
                message(
                    ValidationMessageType::Warning,
                    "Tauri command '"@ + cmds[0] + "' is not registered in any invoke_handler"@,
                ),
            ]
        } else {
            Seq::empty()
        }) + unregistered_msgs(cmds.skip(1), handlers)
    }
}

/// The findings and severity contribution of the domain-compatibility
/// pass: exposed commands and handler registrations of the original must
/// survive in the proposed text, and every exposed command of the
/// proposed text should be mentioned by some registration.
pub open spec fn tauri_pass(orig: Seq<char>, modi: Seq<char>) -> PartialModel {
    let orig_cmds = extract_commands_from(orig, 0);
    let modi_cmds = extract_commands_from(modi, 0);
    let orig_handlers = spec_extract_handlers(orig);
    let modi_handlers = spec_extract_handlers(modi);
    let cmd_msgs = removed_item_msgs(orig_cmds, modi_cmds, "Tauri command '"@, "' was removed"@);
    let handler_msgs = removed_item_msgs(
        orig_handlers,
        modi_handlers,
        "Tauri invoke handler '"@,
        "' was removed"@,
    );
    let warn_msgs = unregistered_msgs(modi_cmds, modi_handlers);
    let sev = if cmd_msgs.len() + handler_msgs.len() > 0 {
        ValidationSeverity::Major
    } else if warn_msgs.len() > 0 {
        ValidationSeverity::Minor
    } else {
        ValidationSeverity::NoIssues
    };
    PartialModel {
        messages: cmd_msgs + handler_msgs + warn_msgs + (if sev is NoIssues {
            seq![
                message(ValidationMessageType::Info, "Tauri compatibility validation passed"@),
            ]
        } else {
            Seq::empty()
        }),
        severity: sev,
    }
}

/// Append one warning for each command of `cmds` that no registration of
/// `handlers` mentions.
fn add_unregistered_warnings(
    result: &mut ValidationPartialResult,
    cmds: &Vec<String>,
    handlers: &Vec<String>,
)
    ensures
        final(result)@.messages == old(result)@.messages + unregistered_msgs(
            cmds.deep_view(),
            handlers.deep_view(),
        ),
        final(result)@.severity == spec_combine(
            old(result)@.severity,
            if unregistered_msgs(cmds.deep_view(), handlers.deep_view()).len() > 0 {
                ValidationSeverity::Minor
            } else {
                ValidationSeverity::NoIssues
            },
        ),
{
    let ghost cmds_s = cmds.deep_view();
    let ghost handlers_s = handlers.deep_view();
    let ghost base_msgs = result@.messages;
    let ghost base_sev = result@.severity;
    let mut i: usize = 0;
    proof {
        assert(cmds_s.skip(0) =~= cmds_s);
    }
    while i < cmds.len()
        invariant
            i <= cmds_s.len(),
            cmds_s.len() == cmds@.len(),
            cmds_s == cmds.deep_view(),
            handlers_s == handlers.deep_view(),
            base_msgs + unregistered_msgs(cmds_s, handlers_s) == result@.messages
                + unregistered_msgs(cmds_s.skip(i as int), handlers_s),
            result@.severity == spec_combine(
                base_sev,
                if result@.messages.len() > base_msgs.len() {
                    ValidationSeverity::Minor
                } else {
                    ValidationSeverity::NoIssues
                },
            ),
            result@.messages.len() >= base_msgs.len(),
        decreases cmds_s.len() - i,
    {
        proof {
            assert(cmds_s.skip(i as int)[0] == cmds_s[i as int]);
            assert(cmds_s.skip(i as int).skip(1) =~= cmds_s.skip(i + 1));
            assert(cmds_s[i as int] == cmds@[i as int]@);
        }
        let ghost pre_msgs = result@.messages;
        if !any_contains(handlers, cmds[i].as_str()) {
            let text = concat3(
                "Tauri command '",
                cmds[i].as_str(),
                "' is not registered in any invoke_handler",
            );
            result.add_warning(text, None);
            proof {
                assert(pre_msgs + (seq![
                    message(
                        ValidationMessageType::Warning,
                        "Tauri command '"@ + cmds_s[i as int]
                            + "' is not registered in any invoke_handler"@,
                    ),
                ] + unregistered_msgs(cmds_s.skip(i + 1), handlers_s)) =~= result@.messages
                    + unregistered_msgs(cmds_s.skip(i + 1), handlers_s));
            }
        }
        i = i + 1;
    }
    proof {
        assert(unregistered_msgs(cmds_s.skip(cmds_s.len() as int), handlers_s) =~= Seq::<
            MessageModel,
        >::empty());
        assert(result@.messages + Seq::<MessageModel>::empty() =~= result@.messages);
    }
}

/// Run the domain-compatibility pass over the original and the proposed
/// text.
pub fn validate_tauri_compatibility(original: &str, modified: &str) -> (r:
    ValidationPartialResult)
    ensures
        r@ == tauri_pass(original@, modified@),
{
    let mut result = ValidationPartialResult::new();
    let original_commands = extract_tauri_commands(original);
    let modified_commands = extract_tauri_commands(modified);
    add_removed_item_errors(
        &mut result,
        &original_commands,
        &modified_commands,
        "Tauri command '",
        "' was removed",
    );
    let original_handlers = extract_invoke_handlers(original);
    let modified_handlers = extract_invoke_handlers(modified);
    add_removed_item_errors(
        &mut result,
        &original_handlers,
        &modified_handlers,
        "Tauri invoke handler '",
        "' was removed",
    );
    add_unregistered_warnings(&mut result, &modified_commands, &modified_handlers);
    let is_clean = match result.severity {
        ValidationSeverity::NoIssues => true,
        _ => false,
    };
    if is_clean {
        result.add_info("Tauri compatibility validation passed".to_owned(), None);
    }
    proof {
        assert(result@.messages =~= tauri_pass(original@, modified@).messages);
    }
    result
}

/// The error message emitted when the call count of a security-sensitive
/// function changed between the original and the proposed text.
pub open spec fn calls_changed_msg(orig: Seq<char>, modi: Seq<char>, name: Seq<char>) -> Seq<
    MessageModel,
> {
    if spec_count_calls(orig, name) != spec_count_calls(modi, name) {
        seq![
            message(
                ValidationMessageType::Error,
                "Security function '"@ + name + "' calls were modified"@,
            ),
        ]
    } else {
        Seq::empty()
    }
}

/// The error message emitted when the proposed text holds more lines
/// with a sensitive token followed by `.unwrap()` than the original.
pub open spec fn unwrap_increase_msg(orig: Seq<char>, modi: Seq<char>, prefix: Seq<char>) -> Seq<
    MessageModel,
> {
    if count_sensitive_from(modi, prefix, 0) > count_sensitive_from(orig, prefix, 0) {
        seq![
            message(
                ValidationMessageType::Error,
                "Added unwrap() on security-sensitive operation matching '"@ + prefix + "'"@,
            ),
        ]
    } else {
        Seq::empty()
    }
}

/// The error message emitted when the proposed text holds more unsafe
/// blocks than the original, naming the increase.
pub open spec fn unsafe_increase_msg(orig: Seq<char>, modi: Seq<char>) -> Seq<MessageModel> {
    if spec_count_unsafe(modi) > spec_count_unsafe(orig) {
        seq![
            message(
                ValidationMessageType::Error,
                "Added "@ + dec_str((spec_count_unsafe(modi) - spec_count_unsafe(orig)) as nat)
                    + " new unsafe blocks"@,
            ),
        ]
    } else {
        Seq::empty()
    }
}

/// The findings and severity contribution of the security-heuristic
/// pass, over the fixed list of security-sensitive function names, the
/// unsafe-block count and the sensitive-unwrap patterns.
pub open spec fn security_pass(orig: Seq<char>, modi: Seq<char>) -> PartialModel {
    let msgs = calls_changed_msg(orig, modi, "validate_path_safety"@) + calls_changed_msg(
        orig,
        modi,
        "verify_signature"@,
    ) + calls_changed_msg(orig, modi, "encrypt"@) + calls_changed_msg(orig, modi, "decrypt"@)
        + calls_changed_msg(orig, modi, "hash"@) + calls_changed_msg(orig, modi, "verify"@)
        + calls_changed_msg(orig, modi, "authenticate"@) + unsafe_increase_msg(orig, modi)
        + unwrap_increase_msg(orig, modi, "verify"@) + unwrap_increase_msg(orig, modi, "auth"@)
        + unwrap_increase_msg(orig, modi, "decrypt"@) + unwrap_increase_msg(orig, modi, ".verify"@);
    PartialModel {
        messages: msgs + (if msgs.len() == 0 {
            seq![message(ValidationMessageType::Info, "Security validation passed"@)]
        } else {
            Seq::empty()
        }),
        severity: if msgs.len() == 0 {
            ValidationSeverity::NoIssues
        } else {
            ValidationSeverity::Major
        },
    }
}

/// Append the error of [`calls_changed_msg`] when the call counts of
/// `name` differ between the two texts.
fn add_call_count_check(
    result: &mut ValidationPartialResult,
    original: &str,
    modified: &str,
    name: &str,
)
    ensures
        final(result)@.messages == old(result)@.messages + calls_changed_msg(
            original@,
            modified@,
            name@,
        ),
        final(result)@.severity == spec_combine(
            old(result)@.severity,
            if calls_changed_msg(original@, modified@, name@).len() > 0 {
                ValidationSeverity::Major
            } else {
                ValidationSeverity::NoIssues
            },
        ),
{
    let ghost pre_msgs = result@.messages;
    let original_calls = count_function_calls(original, name);
    let modified_calls = count_function_calls(modified, name);
    if original_calls != modified_calls {
        let text = concat3("Security function '", name, "' calls were modified");
        result.add_error(text, None);
        proof {
            assert(result@.messages =~= pre_msgs + calls_changed_msg(
                original@,
                modified@,
                name@,
            ));
        }
    } else {
        proof {
            assert(result@.messages =~= pre_msgs + calls_changed_msg(
                original@,
                modified@,
                name@,
            ));
        }
    }
}

/// Append the error of [`unwrap_increase_msg`] when the proposed text
/// holds more sensitive unwraps for `prefix` than the original.
fn add_unwrap_check(
    result: &mut ValidationPartialResult,
    original: &str,
    modified: &str,
    prefix: &str,
)
    requires
        prefix@.len() > 0,
    ensures
        final(result)@.messages == old(result)@.messages + unwrap_increase_msg(
            original@,
            modified@,
            prefix@,
        ),
        final(result)@.severity == spec_combine(
            old(result)@.severity,
            if unwrap_increase_msg(original@, modified@, prefix@).len() > 0 {
                ValidationSeverity::Major
            } else {
                ValidationSeverity::NoIssues
            },
        ),
{
    let ghost pre_msgs = result@.messages;
    let original_count = count_sensitive_unwraps(original, prefix);
    let modified_count = count_sensitive_unwraps(modified, prefix);
    if modified_count > original_count {
        let text = concat3(
            "Added unwrap() on security-sensitive operation matching '",
            prefix,
            "'",
        );
        result.add_error(text, None);
        proof {
            assert(result@.messages =~= pre_msgs + unwrap_increase_msg(
                original@,
                modified@,
                prefix@,
            ));
        }
    } else {
        proof {
            assert(result@.messages =~= pre_msgs + unwrap_increase_msg(
                original@,
                modified@,
                prefix@,
            ));
        }
    }
}

/// Run the security-heuristic pass over the original and the proposed
/// text.
pub fn validate_security_implications(original: &str, modified: &str) -> (r:
    ValidationPartialResult)
    ensures
        r@ == security_pass(original@, modified@),
{
    let mut result = ValidationPartialResult::new();
    add_call_count_check(&mut result, original, modified, "validate_path_safety");
    add_call_count_check(&mut result, original, modified, "verify_signature");
    add_call_count_check(&mut result, original, modified, "encrypt");
    add_call_count_check(&mut result, original, modified, "decrypt");
    add_call_count_check(&mut result, original, modified, "hash");
    add_call_count_check(&mut result, original, modified, "verify");
    add_call_count_check(&mut result, original, modified, "authenticate");
    let ghost pre_unsafe_msgs = result@.messages;
    let original_unsafe = count_unsafe_blocks(original);
    let modified_unsafe = count_unsafe_blocks(modified);
    if modified_unsafe > original_unsafe {
        let num = usize_to_string(modified_unsafe - original_unsafe);
        let text = concat3("Added ", num.as_str(), " new unsafe blocks");
        result.add_error(text, None);
        proof {
            assert(result@.messages =~= pre_unsafe_msgs + unsafe_increase_msg(
                original@,
                modified@,
            ));
        }
    } else {
        proof {
            assert(result@.messages =~= pre_unsafe_msgs + unsafe_increase_msg(
                original@,
                modified@,
            ));
        }
    }
    proof {
        reveal_strlit("verify");
        reveal_strlit("auth");
        reveal_strlit("decrypt");
        reveal_strlit(".verify");
    }
    add_unwrap_check(&mut result, original, modified, "verify");
    add_unwrap_check(&mut result, original, modified, "auth");
    add_unwrap_check(&mut result, original, modified, "decrypt");
    add_unwrap_check(&mut result, original, modified, ".verify");
    let is_clean = match result.severity {
        ValidationSeverity::NoIssues => true,
        _ => false,
    };
    if is_clean {
        result.add_info("Security validation passed".to_owned(), None);
    }
    proof {
        assert(result@.messages =~= security_pass(original@, modified@).messages);
    }
    result
}

/// A path belongs to the embedding-framework convention when it mentions
/// the framework's source directory or configuration file.
pub open spec fn spec_is_tauri_file(path: Seq<char>) -> bool {
    contains_seq(path, "src-tauri"@) || contains_seq(path, "tauri.conf.json"@)
}

/// Whether the file at `path` belongs to the embedding-framework
/// convention checked by the domain-compatibility pass.
pub fn is_tauri_file(file_path: &str) -> (r: bool)
    ensures
        r == spec_is_tauri_file(file_path@),
{
    contains_sub(file_path, "src-tauri") || contains_sub(file_path, "tauri.conf.json")
}

/// The verdict of the whole pipeline on one fix: the syntax pass always
/// runs; the semantic and structural passes run unless `syntax_only`;
/// the domain-compatibility pass runs for framework files when enabled;
/// the security pass runs when enabled. Findings are concatenated in
/// pass order and severities are joined over the lattice; the fix is
/// accepted exactly when the aggregate severity is accepted.
pub open spec fn fix_verdict(fix: FixModel, options: ValidationOptions) -> VerdictModel {
    let p1 = syntax_pass(fix.modified_code);
    if options.syntax_only {
        VerdictModel {
            file_path: fix.file_path,
            is_valid: severity_accepted(p1.severity),
            messages: p1.messages,
            severity: p1.severity,
        }
    } else {
        let p2 = semantic_pass(fix.modified_code);
        let p3 = structural_pass(fix.original_code, fix.modified_code);
        let msgs3 = p1.messages + p2.messages + p3.messages;
        let sev3 = spec_combine(spec_combine(p1.severity, p2.severity), p3.severity);
        let with_tauri = options.tauri_compatibility && spec_is_tauri_file(fix.file_path);
        let p4 = tauri_pass(fix.original_code, fix.modified_code);
        let msgs4 = if with_tauri {
            msgs3 + p4.messages
        } else {
            msgs3
        };
        let sev4 = if with_tauri {
            spec_combine(sev3, p4.severity)
        } else {
            sev3
        };
        let p5 = security_pass(fix.original_code, fix.modified_code);
        let msgs5 = if options.security_validation {
            msgs4 + p5.messages
        } else {
            msgs4
        };
        let sev5 = if options.security_validation {
            spec_combine(sev4, p5.severity)
        } else {
            sev4
        };
        VerdictModel {
            file_path: fix.file_path,
            is_valid: severity_accepted(sev5),
            messages: msgs5,
            severity: sev5,
        }
    }
}

/// Validate a single fix against the configured passes.
pub fn validate_fix(fix: &FixToValidate, options: &ValidationOptions) -> (r: Result<
    ValidationResult,
>)
    ensures
        r matches Ok(v) && v@ == fix_verdict(fix@, *options),
{
    let mut messages: Vec<ValidationMessage> = Vec::new();
    let mut severity;
    let mut syntax_result = validate_syntax(fix.modified_code.as_str());
    let ghost p1 = syntax_result@;
    messages.append(&mut syntax_result.messages);
    severity = syntax_result.severity;
    proof {
        assert(messages.deep_view() =~= p1.messages);
    }
    if !options.syntax_only {
        let mut semantic_result = validate_semantics(
            fix.file_path.as_str(),
            fix.modified_code.as_str(),
        );
        let ghost p2 = semantic_result@;
        let ghost before = messages.deep_view();
        messages.append(&mut semantic_result.messages);
        severity = severity.combine(semantic_result.severity);
        proof {
            assert(messages.deep_view() =~= before + p2.messages);
        }
        let mut structural_result = validate_structural_integrity(
            fix.original_code.as_str(),
            fix.modified_code.as_str(),
        );
        let ghost p3 = structural_result@;
        let ghost before3 = messages.deep_view();
        messages.append(&mut structural_result.messages);
        severity = severity.combine(structural_result.severity);
        proof {
            assert(messages.deep_view() =~= before3 + p3.messages);
        }
        if options.tauri_compatibility && is_tauri_file(fix.file_path.as_str()) {
            let mut tauri_result = validate_tauri_compatibility(
                fix.original_code.as_str(),
                fix.modified_code.as_str(),
            );
            let ghost p4 = tauri_result@;
            let ghost before4 = messages.deep_view();
            messages.append(&mut tauri_result.messages);
            severity = severity.combine(tauri_result.severity);
            proof {
                assert(messages.deep_view() =~= before4 + p4.messages);
            }
        }
        if options.security_validation {
            let mut security_result = validate_security_implications(
                fix.original_code.as_str(),
                fix.modified_code.as_str(),
            );
            let ghost p5 = security_result@;
            let ghost before5 = messages.deep_view();
            messages.append(&mut security_result.messages);
            severity = severity.combine(security_result.severity);
            proof {
                assert(messages.deep_view() =~= before5 + p5.messages);
            }
        }
    }
    let is_valid = severity.is_valid();
    Ok(ValidationResult { file_path: fix.file_path.clone(), is_valid, messages, severity })
}

/// Validate a list of fixes: one verdict per input fix, in order; a
/// candidate that fails its checks yields an invalid verdict, never a
/// shorter result list.
pub fn validate_fixes(fixes: &Vec<FixToValidate>, options: &ValidationOptions) -> (r: Result<
    Vec<ValidationResult>,
>)
    ensures
        r matches Ok(results) && results@.len() == fixes@.len() && forall|i: int|
            0 <= i < fixes@.len() ==> #[trigger] results.deep_view()[i] == fix_verdict(
                fixes.deep_view()[i],
                *options,
            ),
{
    let mut results: Vec<ValidationResult> = Vec::new();
    let mut i: usize = 0;
    while i < fixes.len()
        invariant
            i <= fixes@.len(),
            results@.len() == i,
            forall|j: int|
                0 <= j < i ==> #[trigger] results.deep_view()[j] == fix_verdict(
                    fixes.deep_view()[j],
                    *options,
                ),
        decreases fixes@.len() - i,
    {
        let ghost pre = results.deep_view();
        match validate_fix(&fixes[i], options) {
            Ok(result) => {
                results.push(result);
                proof {
                    assert(results.deep_view() =~= pre.push(results@.last().deep_view()));
                    assert(fixes.deep_view()[i as int] == fixes@[i as int]@);
                }
            },
            Err(e) => {
                proof {
                    assert(false);
                }
            },
        }
        i = i + 1;
    }
    Ok(results)
}

} // verus!
