//! Errors that the library reports, with the facts each one carries.
use vstd::prelude::*;

verus! {

/// Why a helper plan for a mapping could not be built.
#[derive(Debug)]
pub enum RunnerHelperPlanError {
    MissingValidatedTable { mapping_id: String, table: String },
    DependencyCycle { mapping_id: String, tables: String },
}


/// Why a runner config was refused.
#[derive(Debug)]
pub enum RunnerConfigError {
    ReadFile { path: String, message: String },
    ParseFile { path: String, message: String },
    InvalidField { field: &'static str, message: &'static str },
    InvalidFieldDetail { field: &'static str, message: String },
    InvalidSocketAddr { field: &'static str },
}

/// A config error, as contracts speak of it.
pub enum ConfigErrorView {
    ReadFile { path: Seq<char>, message: Seq<char> },
    ParseFile { path: Seq<char>, message: Seq<char> },
    InvalidField { field: Seq<char>, message: Seq<char> },
    InvalidFieldDetail { field: Seq<char>, message: Seq<char> },
    InvalidSocketAddr { field: Seq<char> },
}

impl View for RunnerConfigError {
    type V = ConfigErrorView;

    open spec fn view(&self) -> ConfigErrorView {
        match self {
            RunnerConfigError::ReadFile { path, message } => ConfigErrorView::ReadFile {
                path: path@,
                message: message@,
            },
            RunnerConfigError::ParseFile { path, message } => ConfigErrorView::ParseFile {
                path: path@,
                message: message@,
            },
            RunnerConfigError::InvalidField { field, message } => ConfigErrorView::InvalidField {
                field: field@,
                message: message@,
            },
            RunnerConfigError::InvalidFieldDetail { field, message } => ConfigErrorView::InvalidFieldDetail {
                field: field@,
                message: message@,
            },
            RunnerConfigError::InvalidSocketAddr { field } => ConfigErrorView::InvalidSocketAddr {
                field: field@,
            },
        }
    }
}

/// `InvalidField` with the given texts.
pub open spec fn invalid_field(field: Seq<char>, message: Seq<char>) -> ConfigErrorView {
    ConfigErrorView::InvalidField { field, message }
}

/// The message of a config error.
pub open spec fn config_error_text(e: ConfigErrorView) -> Seq<char> {
    match e {
        ConfigErrorView::ReadFile { path, .. } => "failed to read config file `"@ + path + "`"@,
        ConfigErrorView::ParseFile { path, message } => "failed to parse config file `"@ + path + "`: "@
            + message,
        ConfigErrorView::InvalidField { field, message } => "invalid config field `"@ + field + "`: "@
            + message,
        ConfigErrorView::InvalidFieldDetail { field, message } => "invalid config field `"@ + field
            + "`: "@ + message,
        ConfigErrorView::InvalidSocketAddr { field } => "invalid socket address in `"@ + field + "`"@,
    }
}

impl RunnerConfigError {
    /// The error's message.
    pub fn render(&self) -> (r: String)
        ensures
            r@ == config_error_text(self@),
    {
        match self {
            RunnerConfigError::ReadFile { path, .. } => {
                let mut s = String::from_str("failed to read config file `");
                s.append(path.as_str());
                s.append("`");
                s
            },
            RunnerConfigError::ParseFile { path, message } => {
                let mut s = String::from_str("failed to parse config file `");
                s.append(path.as_str());
                s.append("`: ");
                s.append(message.as_str());
                s
            },
            RunnerConfigError::InvalidField { field, message } => {
                let mut s = String::from_str("invalid config field `");
                s.append(field);
                s.append("`: ");
                s.append(message);
                s
            },
            RunnerConfigError::InvalidFieldDetail { field, message } => {
                let mut s = String::from_str("invalid config field `");
                s.append(field);
                s.append("`: ");
                s.append(message.as_str());
                s
            },
            RunnerConfigError::InvalidSocketAddr { field } => {
                let mut s = String::from_str("invalid socket address in `");
                s.append(field);
                s.append("`");
                s
            },
        }
    }
}

/// The message of a helper-plan error.
pub open spec fn helper_plan_error_text(e: &RunnerHelperPlanError) -> Seq<char> {
    match e {
        RunnerHelperPlanError::MissingValidatedTable { mapping_id, table } =>
            "validated schema is missing selected table `"@ + table@ + "` for mapping `"@ + mapping_id@
            + "`"@,
        RunnerHelperPlanError::DependencyCycle { mapping_id, tables } => "dependency cycle detected for mapping `"@
            + mapping_id@ + "` across tables: "@ + tables@,
    }
}

impl RunnerHelperPlanError {
    /// The error's message.
    pub fn render(&self) -> (r: String)
        ensures
            r@ == helper_plan_error_text(self),
    {
        match self {
            RunnerHelperPlanError::MissingValidatedTable { mapping_id, table } => {
                let mut s = String::from_str("validated schema is missing selected table `");
                s.append(table.as_str());
                s.append("` for mapping `");
                s.append(mapping_id.as_str());
                s.append("`");
                s
            },
            RunnerHelperPlanError::DependencyCycle { mapping_id, tables } => {
                let mut s = String::from_str("dependency cycle detected for mapping `");
                s.append(mapping_id.as_str());
                s.append("` across tables: ");
                s.append(tables.as_str());
                s
            },
        }
    }
}

} // verus!
