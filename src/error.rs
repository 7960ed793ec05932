//! The ways a workflow can fail, and the message each failure is reported with.

use vstd::prelude::*;

verus! {

/// A failure that ends a workflow.
#[derive(Debug, Clone)]
pub enum FlowError {
    ConfigLoad(String),
    InvalidConfig(String),
    MissingEnvVar(String),
    MissingCredential(String),
    MissingVariable(String),
    InvalidTemplate(String),
    StepFailure { step_index: usize, message: String },
}

/// The mathematical form of a [`FlowError`].
pub enum ErrorView {
    ConfigLoad(Seq<char>),
    InvalidConfig(Seq<char>),
    MissingEnvVar(Seq<char>),
    MissingCredential(Seq<char>),
    MissingVariable(Seq<char>),
    InvalidTemplate(Seq<char>),
    StepFailure { step_index: nat, message: Seq<char> },
}

impl View for FlowError {
    type V = ErrorView;

    open spec fn view(&self) -> ErrorView {
        match self {
            FlowError::ConfigLoad(s) => ErrorView::ConfigLoad(s@),
            FlowError::InvalidConfig(s) => ErrorView::InvalidConfig(s@),
            FlowError::MissingEnvVar(s) => ErrorView::MissingEnvVar(s@),
            FlowError::MissingCredential(s) => ErrorView::MissingCredential(s@),
            FlowError::MissingVariable(s) => ErrorView::MissingVariable(s@),
            FlowError::InvalidTemplate(s) => ErrorView::InvalidTemplate(s@),
            FlowError::StepFailure { step_index, message } => ErrorView::StepFailure {
                step_index: *step_index as nat,
                message: message@,
            },
        }
    }
}

/// `r` is the exec form of `s`: the same value, or the same failure.
pub open spec fn outcome<T: View>(r: Result<T, FlowError>, s: Result<T::V, ErrorView>) -> bool {
    match s {
        Ok(v) => r matches Ok(x) && x@ == v,
        Err(e) => r matches Err(f) && f@ == e,
    }
}

/// The decimal digit for `d < 10`.
pub open spec fn digit_char(d: nat) -> char {
    ((d + 48) as u8) as char
}

/// The decimal representation of `n`, without leading zeros.
pub open spec fn decimal(n: nat) -> Seq<char>
    decreases n,
{
    if n < 10 {
        seq![digit_char(n)]
    } else {
        decimal(n / 10).push(digit_char(n % 10))
    }
}

/// The human-readable message of a failure.
pub open spec fn error_message(e: ErrorView) -> Seq<char> {
    match e {
        ErrorView::ConfigLoad(d) => "failed to load configuration: "@ + d,
        ErrorView::InvalidConfig(d) => "invalid configuration: "@ + d,
        ErrorView::MissingEnvVar(n) => "environment variable '"@ + n + "' is required"@,
        ErrorView::MissingCredential(n) => "credential '"@ + n + "' is not defined"@,
        ErrorView::MissingVariable(n) => "value for '"@ + n + "' is not available"@,
        ErrorView::InvalidTemplate(d) => "template error: "@ + d,
        ErrorView::StepFailure { step_index, message } => "step "@ + decimal(step_index + 1)
            + " failed: "@ + message,
    }
}

/// The decimal representation of `n`.
pub fn decimal_string(n: u128) -> (r: String)
    ensures
        r@ == decimal(n as nat),
    decreases n,
{
    let d: u8 = (n % 10) as u8;
    let c: char = (d + 48) as char;
    let mut out = if n < 10 {
        String::new()
    } else {
        decimal_string(n / 10)
    };
    out.push(c);
    proof {
        if n < 10 {
            assert(out@ == seq![c]);
        }
    }
    out
}

/// The two pieces, one after the other.
pub fn prefixed(a: &str, b: &str) -> (r: String)
    ensures
        r@ == a@ + b@,
{
    let mut out = String::from_str(a);
    out.append(b);
    out
}

/// The three pieces, one after the other.
pub fn joined(a: &str, b: &str, c: &str) -> (r: String)
    ensures
        r@ == a@ + b@ + c@,
{
    let mut out = String::from_str(a);
    out.append(b);
    out.append(c);
    out
}

impl FlowError {
    /// The message that reports this failure.
    pub fn message(&self) -> (r: String)
        ensures
            r@ == error_message(self@),
    {
        match self {
            FlowError::ConfigLoad(d) => prefixed("failed to load configuration: ", d.as_str()),
            FlowError::InvalidConfig(d) => prefixed("invalid configuration: ", d.as_str()),
            FlowError::MissingEnvVar(n) => joined(
                "environment variable '",
                n.as_str(),
                "' is required",
            ),
            FlowError::MissingCredential(n) => joined(
                "credential '",
                n.as_str(),
                "' is not defined",
            ),
            FlowError::MissingVariable(n) => joined(
                "value for '",
                n.as_str(),
                "' is not available",
            ),
            FlowError::InvalidTemplate(d) => prefixed("template error: ", d.as_str()),
            FlowError::StepFailure { step_index, message } => {
                let number = decimal_string(*step_index as u128 + 1);
                let mut out = joined("step ", number.as_str(), " failed: ");
                out.append(message.as_str());
                out
            },
        }
    }
}

} // verus!
