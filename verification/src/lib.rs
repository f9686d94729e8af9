//! Tools for validating and applying machine-suggested changes to Rust
//! source files.
//!
//! The crate is organised around a small pipeline: a set of validation
//! passes over a proposed text change, a severity lattice that aggregates
//! the findings of every pass into one verdict, an applier that performs
//! optimistically-concurrent, backup-protected writes against a file
//! store, and a reporter that renders the applied changes.
#![verifier::loop_isolation(false)]

use vstd::prelude::*;

pub mod analysis;
pub mod extract;
pub mod modification;
pub mod progress;
pub mod report;
pub mod store;
pub mod syntax;
pub mod validation;
pub mod text;

verus! {

/// Errors that can occur while validating, analysing or applying changes.
///
/// Each variant carries a human-readable detail string, usually the path
/// or the pattern the operation failed on.
#[derive(Debug)]
pub enum RustAiToolError {
    /// The target path was missing when an operation needed it.
    InputNotFound(String),
    /// The on-disk content diverged from the recorded original before a
    /// change could be applied.
    ConcurrentModification(String),
    /// A syntax-parsing step could not be completed.
    ParseFailure(String),
    /// An extraction pattern (for example a custom rule) is malformed.
    Configuration(String),
    /// A read or write of the underlying file store failed.
    Io(String),
}

/// Mathematical model of [`RustAiToolError`]: the same variants over
/// character sequences.
pub ghost enum ErrorModel {
    InputNotFound(Seq<char>),
    ConcurrentModification(Seq<char>),
    ParseFailure(Seq<char>),
    Configuration(Seq<char>),
    Io(Seq<char>),
}

impl View for RustAiToolError {
    type V = ErrorModel;

    open spec fn view(&self) -> ErrorModel {
        match self {
            RustAiToolError::InputNotFound(s) => ErrorModel::InputNotFound(s@),
            RustAiToolError::ConcurrentModification(s) => ErrorModel::ConcurrentModification(s@),
            RustAiToolError::ParseFailure(s) => ErrorModel::ParseFailure(s@),
            RustAiToolError::Configuration(s) => ErrorModel::Configuration(s@),
            RustAiToolError::Io(s) => ErrorModel::Io(s@),
        }
    }
}

impl RustAiToolError {
    /// The detail string carried by the error.
    pub fn detail(&self) -> (r: &String)
        ensures
            r@ == self.spec_detail(),
    {
        match self {
            RustAiToolError::InputNotFound(s) => s,
            RustAiToolError::ConcurrentModification(s) => s,
            RustAiToolError::ParseFailure(s) => s,
            RustAiToolError::Configuration(s) => s,
            RustAiToolError::Io(s) => s,
        }
    }

    /// The detail string of the model.
    pub open spec fn spec_detail(&self) -> Seq<char> {
        match self {
            RustAiToolError::InputNotFound(s) => s@,
            RustAiToolError::ConcurrentModification(s) => s@,
            RustAiToolError::ParseFailure(s) => s@,
            RustAiToolError::Configuration(s) => s@,
            RustAiToolError::Io(s) => s@,
        }
    }
}

/// Result type used throughout the crate.
pub type Result<T> = core::result::Result<T, RustAiToolError>;

/// Severity of an analysis issue or custom rule.
#[derive(Debug, Clone, Copy, PartialEq, Eq, Structural)]
pub enum Severity {
    /// Error - must be fixed.
    Error,
    /// Warning - should be fixed.
    Warning,
    /// Information - optional fix.
    Info,
    /// Style - code style issue.
    Style,
}

/// Custom analysis rule: a search pattern with a message and severity.
#[derive(Debug, Clone)]
pub struct CustomRule {
    /// Name of the rule.
    pub name: String,
    /// Pattern to match (a regular expression over the file's text).
    pub pattern: String,
    /// Message to display when the rule is triggered.
    pub message: String,
    /// Severity of the rule.
    pub severity: Severity,
}

/// Mathematical model of [`CustomRule`].
pub ghost struct CustomRuleModel {
    pub name: Seq<char>,
    pub pattern: Seq<char>,
    pub message: Seq<char>,
    pub severity: Severity,
}

impl View for CustomRule {
    type V = CustomRuleModel;

    open spec fn view(&self) -> CustomRuleModel {
        CustomRuleModel {
            name: self.name@,
            pattern: self.pattern@,
            message: self.message@,
            severity: self.severity,
        }
    }
}

impl DeepView for CustomRule {
    type V = CustomRuleModel;

    open spec fn deep_view(&self) -> CustomRuleModel {
        self.view()
    }
}

/// Options for code analysis.
#[derive(Debug, Clone)]
pub struct AnalysisOptions {
    /// Whether an external lint tool is run over the project as a whole.
    pub run_clippy: bool,
    /// Whether to run the syntax-analysis pass on each file.
    pub use_rust_analyzer: bool,
    /// Custom rules to apply during analysis.
    pub custom_rules: Vec<CustomRule>,
}

/// Mathematical model of [`AnalysisOptions`].
pub ghost struct AnalysisOptionsModel {
    pub run_clippy: bool,
    pub use_rust_analyzer: bool,
    pub custom_rules: Seq<CustomRuleModel>,
}

impl View for AnalysisOptions {
    type V = AnalysisOptionsModel;

    open spec fn view(&self) -> AnalysisOptionsModel {
        AnalysisOptionsModel {
            run_clippy: self.run_clippy,
            use_rust_analyzer: self.use_rust_analyzer,
            custom_rules: self.custom_rules.deep_view(),
        }
    }
}

/// Options for validation of suggested fixes.
#[derive(Debug, Clone)]
pub struct ValidationOptions {
    /// Whether to validate syntax only.
    pub syntax_only: bool,
    /// Whether to validate against the command/handler registration
    /// convention of embedding frameworks.
    pub tauri_compatibility: bool,
    /// Whether to validate security implications.
    pub security_validation: bool,
}

/// GitHub repository information, carried through configuration.
#[derive(Debug, Clone)]
pub struct GitHubRepo {
    /// Repository owner.
    pub owner: String,
    /// Repository name.
    pub name: String,
    /// Access token.
    pub access_token: String,
}

/// Supported model types for the external suggestion service.
#[derive(Debug, Clone)]
pub enum AiModelType {
    /// The first supported hosted service.
    Claude,
    /// The second supported hosted service.
    Gpt,
    /// The third supported hosted service.
    Mistral,
    /// A locally running model, named by its identifier.
    Local(String),
}

/// Configuration of the external suggestion service.
#[derive(Debug, Clone)]
pub struct AiModelConfig {
    /// Type of model to use.
    pub model_type: AiModelType,
    /// API key for the service.
    pub api_key: String,
    /// Base URL for the service, when not the default.
    pub api_base_url: Option<String>,
}

/// Core configuration.
#[derive(Debug, Clone)]
pub struct Config {
    /// Path of the project under analysis.
    pub project_path: String,
    /// Repository information, when remote operations are enabled.
    pub github_repo: Option<GitHubRepo>,
    /// Configuration of the external suggestion service.
    pub ai_model: AiModelConfig,
    /// Analysis options.
    pub analysis_options: AnalysisOptions,
    /// Validation options.
    pub validation_options: ValidationOptions,
}

} // verus!
