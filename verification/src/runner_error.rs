//! The one shape in which the engine holds an error or warning that a runner
//! reported, whichever of the two wire shapes it arrived in.

use vstd::prelude::*;

verus! {

/// What a [`RunnerError`] says, as plain values.
pub struct RunnerErrorView {
    pub message: Option<Seq<char>>,
    pub details: Option<Seq<char>>,
    pub file_name: Option<Seq<char>>,
    pub line_number: Option<i32>,
}

/// An error or warning reported by a runner.
#[derive(Debug, Clone, PartialEq, Eq)]
pub struct RunnerError {
    pub message: Option<String>,
    pub details: Option<String>,
    pub file_name: Option<String>,
    pub line_number: Option<i32>,
}

impl View for RunnerError {
    type V = RunnerErrorView;

    open spec fn view(&self) -> RunnerErrorView {
        RunnerErrorView {
            message: self.message.deep_view(),
            details: self.details.deep_view(),
            file_name: self.file_name.deep_view(),
            line_number: self.line_number,
        }
    }
}

impl DeepView for RunnerError {
    type V = RunnerErrorView;

    open spec fn deep_view(&self) -> RunnerErrorView {
        self@
    }
}

impl Default for RunnerError {
    fn default() -> (error: RunnerError)
        ensures
            error@ == (RunnerErrorView {
                message: None,
                details: None,
                file_name: None,
                line_number: None,
            }),
    {
        RunnerError { message: None, details: None, file_name: None, line_number: None }
    }
}

/// What a [`SendableRunnerError`] says, as plain values.
pub struct SendableRunnerErrorView {
    pub message: Option<Seq<char>>,
    pub code: Option<i32>,
    pub line_number: Option<i32>,
    pub file_name: Option<Seq<char>>,
    pub details: Option<Seq<char>>,
    pub is_warning: bool,
    pub is_internal: bool,
}

/// The engine-wide form of a runner's error, as handed to reporting.
#[derive(Debug, Clone, PartialEq, Eq)]
pub struct SendableRunnerError {
    pub message: Option<String>,
    pub code: Option<i32>,
    pub line_number: Option<i32>,
    pub file_name: Option<String>,
    pub details: Option<String>,
    pub is_warning: bool,
    pub is_internal: bool,
}

impl View for SendableRunnerError {
    type V = SendableRunnerErrorView;

    open spec fn view(&self) -> SendableRunnerErrorView {
        SendableRunnerErrorView {
            message: self.message.deep_view(),
            code: self.code,
            line_number: self.line_number,
            file_name: self.file_name.deep_view(),
            details: self.details.deep_view(),
            is_warning: self.is_warning,
            is_internal: self.is_internal,
        }
    }
}

impl RunnerError {
    /// The engine-wide form of this error: the same message, details, file
    /// name and line number, the caller's warning flag, no machine code, and
    /// never marked internal.
    pub fn into_sendable(self, is_warning: bool) -> (sendable: SendableRunnerError)
        ensures
            sendable@ == (SendableRunnerErrorView {
                message: self@.message,
                code: None,
                line_number: self@.line_number,
                file_name: self@.file_name,
                details: self@.details,
                is_warning,
                is_internal: false,
            }),
    {
        SendableRunnerError {
            message: self.message,
            code: None,
            line_number: self.line_number,
            file_name: self.file_name,
            details: self.details,
            is_warning,
            is_internal: false,
        }
    }
}

/// A single error as it stands in a runner's message: at most a message.
#[derive(Debug, Clone, PartialEq, Eq)]
pub struct WireRunnerError {
    pub msg: Option<String>,
}

/// A single warning as it stands in a runner's message: a message and
/// perhaps details.
#[derive(Debug, Clone, PartialEq, Eq)]
pub struct WireRunnerWarning {
    pub msg: String,
    pub details: Option<String>,
}

/// What a [`WireRunnerError`] holds, as plain values.
pub struct WireRunnerErrorView {
    pub msg: Option<Seq<char>>,
}

/// What a [`WireRunnerWarning`] holds, as plain values.
pub struct WireRunnerWarningView {
    pub msg: Seq<char>,
    pub details: Option<Seq<char>>,
}

impl View for WireRunnerError {
    type V = WireRunnerErrorView;

    open spec fn view(&self) -> WireRunnerErrorView {
        WireRunnerErrorView { msg: self.msg.deep_view() }
    }
}

impl DeepView for WireRunnerError {
    type V = WireRunnerErrorView;

    open spec fn deep_view(&self) -> WireRunnerErrorView {
        self@
    }
}

impl View for WireRunnerWarning {
    type V = WireRunnerWarningView;

    open spec fn view(&self) -> WireRunnerWarningView {
        WireRunnerWarningView { msg: self.msg@, details: self.details.deep_view() }
    }
}

impl DeepView for WireRunnerWarning {
    type V = WireRunnerWarningView;

    open spec fn deep_view(&self) -> WireRunnerWarningView {
        self@
    }
}

/// The error that a wire error stands for: its message if it has one. The
/// wire carries no details, file name or line number for errors.
pub open spec fn error_from_wire(wire: WireRunnerErrorView) -> RunnerErrorView {
    RunnerErrorView { message: wire.msg, details: None, file_name: None, line_number: None }
}

/// The error that a wire warning stands for: its message and details. The
/// wire carries no file name or line number for warnings.
pub open spec fn warning_from_wire(wire: WireRunnerWarningView) -> RunnerErrorView {
    RunnerErrorView {
        message: Some(wire.msg),
        details: wire.details,
        file_name: None,
        line_number: None,
    }
}

impl From<WireRunnerError> for RunnerError {
    fn from(runner_error: WireRunnerError) -> (error: Self)
        ensures
            error@ == error_from_wire(runner_error@),
    {
        Self { message: runner_error.msg, details: None, file_name: None, line_number: None }
    }
}

impl vstd::std_specs::convert::FromSpecImpl<WireRunnerError> for RunnerError {
    open spec fn obeys_from_spec() -> bool {
        true
    }

    open spec fn from_spec(runner_error: WireRunnerError) -> Self {
        RunnerError { message: runner_error.msg, details: None, file_name: None, line_number: None }
    }
}

impl From<WireRunnerWarning> for RunnerError {
    fn from(runner_warning: WireRunnerWarning) -> (error: Self)
        ensures
            error@ == warning_from_wire(runner_warning@),
    {
        Self {
            message: Some(runner_warning.msg),
            details: runner_warning.details,
            file_name: None,
            line_number: None,
        }
    }
}

impl vstd::std_specs::convert::FromSpecImpl<WireRunnerWarning> for RunnerError {
    open spec fn obeys_from_spec() -> bool {
        true
    }

    open spec fn from_spec(runner_warning: WireRunnerWarning) -> Self {
        RunnerError {
            message: Some(runner_warning.msg),
            details: runner_warning.details,
            file_name: None,
            line_number: None,
        }
    }
}

/// The errors that a batch of wire errors stands for, one for one and in order.
pub open spec fn errors_from_wire(wire: Seq<WireRunnerErrorView>) -> Seq<RunnerErrorView> {
    wire.map_values(|entry: WireRunnerErrorView| error_from_wire(entry))
}

/// The errors that a batch of wire warnings stands for, one for one and in order.
pub open spec fn warnings_from_wire(wire: Seq<WireRunnerWarningView>) -> Seq<RunnerErrorView> {
    wire.map_values(|entry: WireRunnerWarningView| warning_from_wire(entry))
}

/// Converts every entry of a batch of wire errors.
pub fn runner_errors_from_wire(wire: Vec<WireRunnerError>) -> (errors: Vec<RunnerError>)
    ensures
        errors.deep_view() == errors_from_wire(wire.deep_view()),
{
    let ghost expected = errors_from_wire(wire.deep_view());
    let mut errors: Vec<RunnerError> = Vec::new();
    for entry in entries: wire.into_iter()
        invariant
            entries.seq() == wire@,
            expected == errors_from_wire(wire.deep_view()),
            errors.len() == entries.index(),
            forall|i: int| 0 <= i < errors.len() ==> (#[trigger] errors[i])@ == expected[i],
    {
        errors.push(RunnerError::from(entry));
    }
    assert(errors.deep_view() =~= expected);
    errors
}

/// Converts every entry of a batch of wire warnings.
pub fn runner_warnings_from_wire(wire: Vec<WireRunnerWarning>) -> (warnings: Vec<RunnerError>)
    ensures
        warnings.deep_view() == warnings_from_wire(wire.deep_view()),
{
    let ghost expected = warnings_from_wire(wire.deep_view());
    let mut warnings: Vec<RunnerError> = Vec::new();
    for entry in entries: wire.into_iter()
        invariant
            entries.seq() == wire@,
            expected == warnings_from_wire(wire.deep_view()),
            warnings.len() == entries.index(),
            forall|i: int| 0 <= i < warnings.len() ==> (#[trigger] warnings[i])@ == expected[i],
    {
        warnings.push(RunnerError::from(entry));
    }
    assert(warnings.deep_view() =~= expected);
    warnings
}

} // verus!
