//! Decoding of the messages that a runner sends to the engine.
//!
//! A message arrives as a binary envelope. Parsing the bytes gives either a
//! parser's complaint or a [`RunnerOutboundEnvelope`]: the short identity of
//! the simulation and the payload, which names its kind and may or may not
//! hold the body that the kind calls for. Decoding turns that into an
//! [`OutboundFromRunnerMsg`] or says which part was missing or malformed.

use vstd::prelude::*;

use crate::language::Language;
use crate::runner_error::{
    error_from_wire, errors_from_wire, runner_errors_from_wire, runner_warnings_from_wire,
    warning_from_wire, warnings_from_wire, RunnerError, RunnerErrorView, WireRunnerError,
    WireRunnerErrorView, WireRunnerWarning, WireRunnerWarningView,
};
use crate::task_id::{big_endian_value, task_id_from_bytes, TaskId};
use crate::text::{decimal_digits, decimal_string};

verus! {

/// The short identity of one running simulation.
pub type SimulationShortId = u32;

/// The kinds of payload that an envelope can declare.
#[derive(Copy, Clone, Debug, Hash, PartialEq, Eq, Structural)]
pub enum PayloadType {
    /// The envelope declares no payload at all.
    NoPayload,
    TaskMsg,
    TaskCancelled,
    RunnerError,
    RunnerErrors,
    RunnerWarning,
    RunnerWarnings,
    PackageError,
    UserErrors,
    UserWarnings,
}

impl PayloadType {
    /// The name of the kind as the wire schema spells it.
    pub open spec fn name(self) -> Seq<char> {
        match self {
            PayloadType::NoPayload => "NONE"@,
            PayloadType::TaskMsg => "TaskMsg"@,
            PayloadType::TaskCancelled => "TaskCancelled"@,
            PayloadType::RunnerError => "RunnerError"@,
            PayloadType::RunnerErrors => "RunnerErrors"@,
            PayloadType::RunnerWarning => "RunnerWarning"@,
            PayloadType::RunnerWarnings => "RunnerWarnings"@,
            PayloadType::PackageError => "PackageError"@,
            PayloadType::UserErrors => "UserErrors"@,
            PayloadType::UserWarnings => "UserWarnings"@,
        }
    }

    pub fn as_str(self) -> (name: &'static str)
        ensures
            name@ == self.name(),
    {
        match self {
            PayloadType::NoPayload => "NONE",
            PayloadType::TaskMsg => "TaskMsg",
            PayloadType::TaskCancelled => "TaskCancelled",
            PayloadType::RunnerError => "RunnerError",
            PayloadType::RunnerErrors => "RunnerErrors",
            PayloadType::RunnerWarning => "RunnerWarning",
            PayloadType::RunnerWarnings => "RunnerWarnings",
            PayloadType::PackageError => "PackageError",
            PayloadType::UserErrors => "UserErrors",
            PayloadType::UserWarnings => "UserWarnings",
        }
    }
}

/// The body of a task-cancellation notice: the bytes of the task's identity,
/// if the runner sent them.
#[derive(Debug, Clone, PartialEq, Eq)]
pub struct WireTaskCancelled {
    pub task_id: Option<Vec<u8>>,
}

impl View for WireTaskCancelled {
    type V = Option<Seq<u8>>;

    open spec fn view(&self) -> Option<Seq<u8>> {
        match self.task_id {
            Some(bytes) => Some(bytes@),
            None => None,
        }
    }
}

/// The payload of an envelope: the kind it declares and, for every kind but
/// [`WirePayload::NoPayload`], the body if one is there.
///
/// A task message arrives already converted by the code that owns the task
/// message type `T`: its body is the outcome of that conversion, the message
/// or the converter's complaint. Of the three kinds that the engine cannot
/// decode yet only the presence of the body is recorded.
#[derive(Debug, PartialEq, Eq)]
pub enum WirePayload<T> {
    NoPayload,
    TaskMsg(Option<Result<T, String>>),
    TaskCancelled(Option<WireTaskCancelled>),
    RunnerError(Option<WireRunnerError>),
    RunnerErrors(Option<Vec<WireRunnerError>>),
    RunnerWarning(Option<WireRunnerWarning>),
    RunnerWarnings(Option<Vec<WireRunnerWarning>>),
    PackageError { present: bool },
    UserErrors { present: bool },
    UserWarnings { present: bool },
}

/// A parsed envelope.
#[derive(Debug, PartialEq, Eq)]
pub struct RunnerOutboundEnvelope<T> {
    pub sim_sid: SimulationShortId,
    pub payload: WirePayload<T>,
}

/// What a [`RunnerOutboundEnvelope`] holds, as plain values.
pub struct EnvelopeView<T> {
    pub sim_sid: SimulationShortId,
    pub payload: WirePayloadView<T>,
}

impl<T> View for RunnerOutboundEnvelope<T> {
    type V = EnvelopeView<T>;

    open spec fn view(&self) -> EnvelopeView<T> {
        EnvelopeView { sim_sid: self.sim_sid, payload: self.payload@ }
    }
}

/// What a [`WirePayload`] holds, as plain values.
pub enum WirePayloadView<T> {
    NoPayload,
    TaskMsg(Option<Result<T, Seq<char>>>),
    TaskCancelled(Option<Option<Seq<u8>>>),
    RunnerError(Option<WireRunnerErrorView>),
    RunnerErrors(Option<Seq<WireRunnerErrorView>>),
    RunnerWarning(Option<WireRunnerWarningView>),
    RunnerWarnings(Option<Seq<WireRunnerWarningView>>),
    PackageError { present: bool },
    UserErrors { present: bool },
    UserWarnings { present: bool },
}

impl<T> WirePayloadView<T> {
    /// The kind that the payload declares.
    pub open spec fn payload_type(self) -> PayloadType {
        match self {
            WirePayloadView::NoPayload => PayloadType::NoPayload,
            WirePayloadView::TaskMsg(_) => PayloadType::TaskMsg,
            WirePayloadView::TaskCancelled(_) => PayloadType::TaskCancelled,
            WirePayloadView::RunnerError(_) => PayloadType::RunnerError,
            WirePayloadView::RunnerErrors(_) => PayloadType::RunnerErrors,
            WirePayloadView::RunnerWarning(_) => PayloadType::RunnerWarning,
            WirePayloadView::RunnerWarnings(_) => PayloadType::RunnerWarnings,
            WirePayloadView::PackageError { .. } => PayloadType::PackageError,
            WirePayloadView::UserErrors { .. } => PayloadType::UserErrors,
            WirePayloadView::UserWarnings { .. } => PayloadType::UserWarnings,
        }
    }
}

impl<T> WirePayloadView<T> {
    /// Whether the payload holds the body that its kind calls for.
    pub open spec fn has_body(self) -> bool {
        match self {
            WirePayloadView::NoPayload => false,
            WirePayloadView::TaskMsg(body) => body is Some,
            WirePayloadView::TaskCancelled(body) => body is Some,
            WirePayloadView::RunnerError(body) => body is Some,
            WirePayloadView::RunnerErrors(body) => body is Some,
            WirePayloadView::RunnerWarning(body) => body is Some,
            WirePayloadView::RunnerWarnings(body) => body is Some,
            WirePayloadView::PackageError { present } => present,
            WirePayloadView::UserErrors { present } => present,
            WirePayloadView::UserWarnings { present } => present,
        }
    }
}

impl<T> View for WirePayload<T> {
    type V = WirePayloadView<T>;

    open spec fn view(&self) -> WirePayloadView<T> {
        match self {
            WirePayload::NoPayload => WirePayloadView::NoPayload,
            WirePayload::TaskMsg(body) => WirePayloadView::TaskMsg(
                match body {
                    Some(Ok(msg)) => Some(Ok(*msg)),
                    Some(Err(complaint)) => Some(Err(complaint@)),
                    None => None,
                },
            ),
            WirePayload::TaskCancelled(body) => WirePayloadView::TaskCancelled(
                match body {
                    Some(cancelled) => Some(cancelled@),
                    None => None,
                },
            ),
            WirePayload::RunnerError(body) => WirePayloadView::RunnerError(body.deep_view()),
            WirePayload::RunnerErrors(body) => WirePayloadView::RunnerErrors(body.deep_view()),
            WirePayload::RunnerWarning(body) => WirePayloadView::RunnerWarning(body.deep_view()),
            WirePayload::RunnerWarnings(body) => WirePayloadView::RunnerWarnings(
                body.deep_view(),
            ),
            WirePayload::PackageError { present } => WirePayloadView::PackageError {
                present: *present,
            },
            WirePayload::UserErrors { present } => WirePayloadView::UserErrors {
                present: *present,
            },
            WirePayload::UserWarnings { present } => WirePayloadView::UserWarnings {
                present: *present,
            },
        }
    }
}

impl<T> WirePayload<T> {
    /// The kind that the payload declares.
    pub fn payload_type(&self) -> (kind: PayloadType)
        ensures
            kind == self@.payload_type(),
    {
        match self {
            WirePayload::NoPayload => PayloadType::NoPayload,
            WirePayload::TaskMsg(_) => PayloadType::TaskMsg,
            WirePayload::TaskCancelled(_) => PayloadType::TaskCancelled,
            WirePayload::RunnerError(_) => PayloadType::RunnerError,
            WirePayload::RunnerErrors(_) => PayloadType::RunnerErrors,
            WirePayload::RunnerWarning(_) => PayloadType::RunnerWarning,
            WirePayload::RunnerWarnings(_) => PayloadType::RunnerWarnings,
            WirePayload::PackageError { .. } => PayloadType::PackageError,
            WirePayload::UserErrors { .. } => PayloadType::UserErrors,
            WirePayload::UserWarnings { .. } => PayloadType::UserWarnings,
        }
    }
}

/// Why a message from a runner could not be decoded.
#[derive(Debug, Clone, PartialEq, Eq)]
pub enum DecodeError {
    /// The bytes are no envelope; the parser's complaint is kept.
    MalformedEnvelope(String),
    /// The envelope declares no payload.
    EmptyPayload,
    /// The envelope declares a payload of this kind and holds no body for it.
    MissingSubpayload(PayloadType),
    /// A task-cancellation notice without the task's identity.
    MissingTaskId,
    /// The task's identity has this many bytes, not sixteen.
    MalformedTaskId { len: usize },
    /// The body of a task message could not be converted; the converter's
    /// complaint is kept.
    MalformedTaskMsg(String),
    /// The payload is of a kind that the engine does not decode yet.
    UnimplementedPayload(PayloadType),
}

/// What a [`DecodeError`] says, as plain values.
pub enum DecodeErrorView {
    MalformedEnvelope(Seq<char>),
    EmptyPayload,
    MissingSubpayload(PayloadType),
    MissingTaskId,
    MalformedTaskId { len: usize },
    MalformedTaskMsg(Seq<char>),
    UnimplementedPayload(PayloadType),
}

impl View for DecodeError {
    type V = DecodeErrorView;

    open spec fn view(&self) -> DecodeErrorView {
        match self {
            DecodeError::MalformedEnvelope(complaint) => DecodeErrorView::MalformedEnvelope(
                complaint@,
            ),
            DecodeError::EmptyPayload => DecodeErrorView::EmptyPayload,
            DecodeError::MissingSubpayload(kind) => DecodeErrorView::MissingSubpayload(*kind),
            DecodeError::MissingTaskId => DecodeErrorView::MissingTaskId,
            DecodeError::MalformedTaskId { len } => DecodeErrorView::MalformedTaskId { len: *len },
            DecodeError::MalformedTaskMsg(complaint) => DecodeErrorView::MalformedTaskMsg(
                complaint@,
            ),
            DecodeError::UnimplementedPayload(kind) => DecodeErrorView::UnimplementedPayload(
                *kind,
            ),
        }
    }
}

impl DecodeErrorView {
    /// The sentence that reports the error.
    pub open spec fn message(self) -> Seq<char> {
        match self {
            DecodeErrorView::MalformedEnvelope(complaint) => {
                "Flatbuffers failed to parse message bytes as a RunnerOutboundMsg: "@ + complaint
            },
            DecodeErrorView::EmptyPayload => "Message from runner had no payload"@,
            DecodeErrorView::MissingSubpayload(kind) => {
                "Message from runner should have had a "@ + kind.name()
                    + " payload but it was missing"@
            },
            DecodeErrorView::MissingTaskId => {
                "Message from runner should have had a task_id but it was missing"@
            },
            DecodeErrorView::MalformedTaskId { len } => {
                "invalid length: expected 16 bytes, found "@ + decimal_digits(len as nat)
            },
            DecodeErrorView::MalformedTaskMsg(complaint) => complaint,
            DecodeErrorView::UnimplementedPayload(kind) => {
                "Message from runner had a "@ + kind.name()
                    + " payload, which is not implemented"@
            },
        }
    }
}

impl DecodeError {
    /// The sentence that reports the error.
    pub fn message(&self) -> (text: String)
        ensures
            text@ == self@.message(),
    {
        match self {
            DecodeError::MalformedEnvelope(complaint) => {
                String::from_str(
                    "Flatbuffers failed to parse message bytes as a RunnerOutboundMsg: ",
                ).concat(complaint.as_str())
            },
            DecodeError::EmptyPayload => String::from_str("Message from runner had no payload"),
            DecodeError::MissingSubpayload(kind) => {
                String::from_str("Message from runner should have had a ").concat(
                    kind.as_str(),
                ).concat(" payload but it was missing")
            },
            DecodeError::MissingTaskId => {
                String::from_str(
                    "Message from runner should have had a task_id but it was missing",
                )
            },
            DecodeError::MalformedTaskId { len } => {
                let digits = decimal_string(*len);
                String::from_str("invalid length: expected 16 bytes, found ").concat(
                    digits.as_str(),
                )
            },
            DecodeError::MalformedTaskMsg(complaint) => complaint.clone(),
            DecodeError::UnimplementedPayload(kind) => {
                String::from_str("Message from runner had a ").concat(kind.as_str()).concat(
                    " payload, which is not implemented",
                )
            },
        }
    }
}

/// What a runner told the engine.
#[derive(Debug, PartialEq, Eq)]
pub enum OutboundFromRunnerMsgPayload<T> {
    TaskMsg(T),
    TaskCancelled(TaskId),
    RunnerError(RunnerError),
    RunnerErrors(Vec<RunnerError>),
    RunnerWarning(RunnerError),
    RunnerWarnings(Vec<RunnerError>),
}

/// What an [`OutboundFromRunnerMsgPayload`] holds, as plain values.
pub enum PayloadView<T> {
    TaskMsg(T),
    TaskCancelled(TaskId),
    RunnerError(RunnerErrorView),
    RunnerErrors(Seq<RunnerErrorView>),
    RunnerWarning(RunnerErrorView),
    RunnerWarnings(Seq<RunnerErrorView>),
}

impl<T> View for OutboundFromRunnerMsgPayload<T> {
    type V = PayloadView<T>;

    open spec fn view(&self) -> PayloadView<T> {
        match self {
            OutboundFromRunnerMsgPayload::TaskMsg(msg) => PayloadView::TaskMsg(*msg),
            OutboundFromRunnerMsgPayload::TaskCancelled(task_id) => PayloadView::TaskCancelled(
                *task_id,
            ),
            OutboundFromRunnerMsgPayload::RunnerError(error) => PayloadView::RunnerError(error@),
            OutboundFromRunnerMsgPayload::RunnerErrors(errors) => PayloadView::RunnerErrors(
                errors.deep_view(),
            ),
            OutboundFromRunnerMsgPayload::RunnerWarning(warning) => PayloadView::RunnerWarning(
                warning@,
            ),
            OutboundFromRunnerMsgPayload::RunnerWarnings(warnings) => PayloadView::RunnerWarnings(
                warnings.deep_view(),
            ),
        }
    }
}

impl<T> PayloadView<T> {
    /// The kind of payload that this was decoded from.
    pub open spec fn payload_type(self) -> PayloadType {
        match self {
            PayloadView::TaskMsg(_) => PayloadType::TaskMsg,
            PayloadView::TaskCancelled(_) => PayloadType::TaskCancelled,
            PayloadView::RunnerError(_) => PayloadType::RunnerError,
            PayloadView::RunnerErrors(_) => PayloadType::RunnerErrors,
            PayloadView::RunnerWarning(_) => PayloadType::RunnerWarning,
            PayloadView::RunnerWarnings(_) => PayloadType::RunnerWarnings,
        }
    }
}

/// The outcome of a decoding step, as plain values.
pub open spec fn outcome_view<A: View, E: View>(outcome: Result<A, E>) -> Result<A::V, E::V> {
    match outcome {
        Ok(value) => Ok(value@),
        Err(error) => Err(error@),
    }
}

/// What the body of a kind that needs one decodes to: the error that names
/// the kind where the body is missing.
pub open spec fn required_body<B>(kind: PayloadType, body: Option<B>) -> Result<
    B,
    DecodeErrorView,
> {
    match body {
        Some(body) => Ok(body),
        None => Err(DecodeErrorView::MissingSubpayload(kind)),
    }
}

/// What the bytes of a task identity decode to.
pub open spec fn decoded_task_id(bytes: Seq<u8>) -> Result<TaskId, DecodeErrorView> {
    if bytes.len() == 16 {
        Ok(big_endian_value(bytes) as u128)
    } else {
        Err(DecodeErrorView::MalformedTaskId { len: bytes.len() as usize })
    }
}

/// What a payload decodes to, kind by kind.
///
/// * No payload: always the empty-payload error.
/// * Every other kind asks for its body first.
/// * A task message is the converted message, or the converter's complaint.
/// * A cancellation needs the task's identity, sixteen bytes that are read
///   as one big-endian number.
/// * A single error or warning is converted; a batch is converted entry by
///   entry, in order, and may be empty.
/// * A package error and the two user-level batches are refused as
///   unimplemented.
pub open spec fn decoded_payload<T>(wire: WirePayloadView<T>) -> Result<
    PayloadView<T>,
    DecodeErrorView,
> {
    match wire {
        WirePayloadView::NoPayload => Err(DecodeErrorView::EmptyPayload),
        WirePayloadView::TaskMsg(body) => match required_body(PayloadType::TaskMsg, body) {
            Ok(Ok(msg)) => Ok(PayloadView::TaskMsg(msg)),
            Ok(Err(complaint)) => Err(DecodeErrorView::MalformedTaskMsg(complaint)),
            Err(missing) => Err(missing),
        },
        WirePayloadView::TaskCancelled(body) => match required_body(
            PayloadType::TaskCancelled,
            body,
        ) {
            Ok(Some(bytes)) => match decoded_task_id(bytes) {
                Ok(task_id) => Ok(PayloadView::TaskCancelled(task_id)),
                Err(malformed) => Err(malformed),
            },
            Ok(None) => Err(DecodeErrorView::MissingTaskId),
            Err(missing) => Err(missing),
        },
        WirePayloadView::RunnerError(body) => match required_body(PayloadType::RunnerError, body) {
            Ok(error) => Ok(PayloadView::RunnerError(error_from_wire(error))),
            Err(missing) => Err(missing),
        },
        WirePayloadView::RunnerErrors(body) => match required_body(
            PayloadType::RunnerErrors,
            body,
        ) {
            Ok(errors) => Ok(PayloadView::RunnerErrors(errors_from_wire(errors))),
            Err(missing) => Err(missing),
        },
        WirePayloadView::RunnerWarning(body) => match required_body(
            PayloadType::RunnerWarning,
            body,
        ) {
            Ok(warning) => Ok(PayloadView::RunnerWarning(warning_from_wire(warning))),
            Err(missing) => Err(missing),
        },
        WirePayloadView::RunnerWarnings(body) => match required_body(
            PayloadType::RunnerWarnings,
            body,
        ) {
            Ok(warnings) => Ok(PayloadView::RunnerWarnings(warnings_from_wire(warnings))),
            Err(missing) => Err(missing),
        },
        WirePayloadView::PackageError { present } => Err(
            if present {
                DecodeErrorView::UnimplementedPayload(PayloadType::PackageError)
            } else {
                DecodeErrorView::MissingSubpayload(PayloadType::PackageError)
            },
        ),
        WirePayloadView::UserErrors { present } => Err(
            if present {
                DecodeErrorView::UnimplementedPayload(PayloadType::UserErrors)
            } else {
                DecodeErrorView::MissingSubpayload(PayloadType::UserErrors)
            },
        ),
        WirePayloadView::UserWarnings { present } => Err(
            if present {
                DecodeErrorView::UnimplementedPayload(PayloadType::UserWarnings)
            } else {
                DecodeErrorView::MissingSubpayload(PayloadType::UserWarnings)
            },
        ),
    }
}

impl<T> TryFrom<WirePayload<T>> for OutboundFromRunnerMsgPayload<T> {
    type Error = DecodeError;

    /// Decodes the payload of an envelope.
    fn try_from(parsed_msg: WirePayload<T>) -> (decoded: Result<Self, DecodeError>)
        ensures
            outcome_view(decoded) == decoded_payload(parsed_msg@),
    {
        Ok(
            match parsed_msg {
                WirePayload::NoPayload => {
                    return Err(DecodeError::EmptyPayload);
                },
                WirePayload::TaskMsg(body) => {
                    let payload = match body {
                        Some(payload) => payload,
                        None => {
                            return Err(DecodeError::MissingSubpayload(PayloadType::TaskMsg));
                        },
                    };
                    match payload {
                        Ok(msg) => Self::TaskMsg(msg),
                        Err(complaint) => {
                            return Err(DecodeError::MalformedTaskMsg(complaint));
                        },
                    }
                },
                WirePayload::TaskCancelled(body) => {
                    let payload = match body {
                        Some(payload) => payload,
                        None => {
                            return Err(DecodeError::MissingSubpayload(PayloadType::TaskCancelled));
                        },
                    };
                    let task_id = match payload.task_id {
                        Some(task_id) => task_id,
                        None => {
                            return Err(DecodeError::MissingTaskId);
                        },
                    };
                    match task_id_from_bytes(task_id.as_slice()) {
                        Ok(value) => Self::TaskCancelled(value),
                        Err(len) => {
                            return Err(DecodeError::MalformedTaskId { len });
                        },
                    }
                },
                WirePayload::RunnerError(body) => {
                    let payload = match body {
                        Some(payload) => payload,
                        None => {
                            return Err(DecodeError::MissingSubpayload(PayloadType::RunnerError));
                        },
                    };
                    Self::RunnerError(RunnerError::from(payload))
                },
                WirePayload::RunnerErrors(body) => {
                    let payload = match body {
                        Some(payload) => payload,
                        None => {
                            return Err(DecodeError::MissingSubpayload(PayloadType::RunnerErrors));
                        },
                    };
                    Self::RunnerErrors(runner_errors_from_wire(payload))
                },
                WirePayload::RunnerWarning(body) => {
                    let payload = match body {
                        Some(payload) => payload,
                        None => {
                            return Err(DecodeError::MissingSubpayload(PayloadType::RunnerWarning));
                        },
                    };
                    Self::RunnerWarning(RunnerError::from(payload))
                },
                WirePayload::RunnerWarnings(body) => {
                    let payload = match body {
                        Some(payload) => payload,
                        None => {
                            return Err(
                                DecodeError::MissingSubpayload(PayloadType::RunnerWarnings),
                            );
                        },
                    };
                    Self::RunnerWarnings(runner_warnings_from_wire(payload))
                },
                WirePayload::PackageError { present } => {
                    if !present {
                        return Err(DecodeError::MissingSubpayload(PayloadType::PackageError));
                    }
                    return Err(DecodeError::UnimplementedPayload(PayloadType::PackageError));
                },
                WirePayload::UserErrors { present } => {
                    if !present {
                        return Err(DecodeError::MissingSubpayload(PayloadType::UserErrors));
                    }
                    return Err(DecodeError::UnimplementedPayload(PayloadType::UserErrors));
                },
                WirePayload::UserWarnings { present } => {
                    if !present {
                        return Err(DecodeError::MissingSubpayload(PayloadType::UserWarnings));
                    }
                    return Err(DecodeError::UnimplementedPayload(PayloadType::UserWarnings));
                },
            },
        )
    }
}

impl<T> vstd::std_specs::convert::TryFromSpecImpl<WirePayload<T>> for OutboundFromRunnerMsgPayload<T> {
    /// What `try_from` returns is stated over views, in its own contract:
    /// a decoded batch is a new vector, which no specification can build.
    open spec fn obeys_try_from_spec() -> bool {
        false
    }

    open spec fn try_from_spec(parsed_msg: WirePayload<T>) -> Result<Self, DecodeError> {
        arbitrary()
    }
}

/// A decoded message from a runner.
#[derive(Debug, PartialEq, Eq)]
pub struct OutboundFromRunnerMsg<T> {
    pub source: Language,
    pub sim_id: SimulationShortId,
    pub payload: OutboundFromRunnerMsgPayload<T>,
}

/// What an [`OutboundFromRunnerMsg`] holds, as plain values.
pub struct MessageView<T> {
    pub source: Language,
    pub sim_id: SimulationShortId,
    pub payload: PayloadView<T>,
}

impl<T> View for OutboundFromRunnerMsg<T> {
    type V = MessageView<T>;

    open spec fn view(&self) -> MessageView<T> {
        MessageView { source: self.source, sim_id: self.sim_id, payload: self.payload@ }
    }
}

/// What the outcome of parsing a runner's bytes decodes to.
///
/// A parser's complaint becomes the malformed-envelope error that carries
/// it. An envelope decodes to a message exactly when its payload decodes;
/// the message carries the envelope's simulation identity.
///
/// The envelope does not say which runner sent it, and the decoder does not
/// ask: the source of every decoded message is reported as
/// [`Language::Python`], whichever runner it came from.
pub open spec fn decoded_message<T>(parsed: Result<EnvelopeView<T>, Seq<char>>) -> Result<
    MessageView<T>,
    DecodeErrorView,
> {
    match parsed {
        Ok(envelope) => match decoded_payload(envelope.payload) {
            Ok(payload) => Ok(
                MessageView { source: Language::Python, sim_id: envelope.sim_sid, payload },
            ),
            Err(error) => Err(error),
        },
        Err(complaint) => Err(DecodeErrorView::MalformedEnvelope(complaint)),
    }
}

/// The outcome of parsing, as plain values.
pub open spec fn parsed_view<T>(parsed: Result<RunnerOutboundEnvelope<T>, String>) -> Result<
    EnvelopeView<T>,
    Seq<char>,
> {
    match parsed {
        Ok(envelope) => Ok(envelope@),
        Err(complaint) => Err(complaint@),
    }
}

impl<T> TryFrom<Result<RunnerOutboundEnvelope<T>, String>> for OutboundFromRunnerMsg<T> {
    type Error = DecodeError;

    /// Decodes a message from what the parser made of its bytes: the
    /// envelope, or the parser's complaint.
    fn try_from(parsed: Result<RunnerOutboundEnvelope<T>, String>) -> (decoded: Result<
        Self,
        DecodeError,
    >)
        ensures
            outcome_view(decoded) == decoded_message(parsed_view(parsed)),
    {
        let parsed_msg = match parsed {
            Ok(parsed_msg) => parsed_msg,
            Err(complaint) => {
                return Err(DecodeError::MalformedEnvelope(complaint));
            },
        };
        let payload = match OutboundFromRunnerMsgPayload::try_from(parsed_msg.payload) {
            Ok(payload) => payload,
            Err(error) => {
                return Err(error);
            },
        };
        Ok(Self { source: Language::Python, sim_id: parsed_msg.sim_sid, payload })
    }
}

impl<T> vstd::std_specs::convert::TryFromSpecImpl<Result<RunnerOutboundEnvelope<T>, String>> for OutboundFromRunnerMsg<T> {
    /// What `try_from` returns is stated over views, in its own contract.
    open spec fn obeys_try_from_spec() -> bool {
        false
    }

    open spec fn try_from_spec(parsed: Result<RunnerOutboundEnvelope<T>, String>) -> Result<
        Self,
        DecodeError,
    > {
        arbitrary()
    }
}

/// An envelope that declares no payload never decodes: whatever else it
/// holds, the outcome is the empty-payload error, and no part of a message.
pub proof fn lemma_no_payload_is_refused<T>(envelope: EnvelopeView<T>)
    requires
        envelope.payload.payload_type() == PayloadType::NoPayload,
    ensures
        decoded_message(Ok(envelope)) == Err::<MessageView<T>, DecodeErrorView>(
            DecodeErrorView::EmptyPayload,
        ),
{
}

/// A batch of errors or of warnings decodes to a batch of the same length,
/// entry for entry; a batch without entries decodes to the empty batch and
/// is no failure.
pub proof fn lemma_batches_decode_entry_by_entry<T>(
    errors: Seq<WireRunnerErrorView>,
    warnings: Seq<WireRunnerWarningView>,
)
    ensures
        decoded_payload(WirePayloadView::<T>::RunnerErrors(Some(errors))) == Ok::<
            PayloadView<T>,
            DecodeErrorView,
        >(PayloadView::RunnerErrors(errors_from_wire(errors))),
        decoded_payload(WirePayloadView::<T>::RunnerWarnings(Some(warnings))) == Ok::<
            PayloadView<T>,
            DecodeErrorView,
        >(PayloadView::RunnerWarnings(warnings_from_wire(warnings))),
        errors_from_wire(errors).len() == errors.len(),
        warnings_from_wire(warnings).len() == warnings.len(),
        errors.len() == 0 ==> errors_from_wire(errors) == Seq::<RunnerErrorView>::empty(),
        warnings.len() == 0 ==> warnings_from_wire(warnings) == Seq::<RunnerErrorView>::empty(),
{
    assert(errors.len() == 0 ==> errors_from_wire(errors) =~= Seq::<RunnerErrorView>::empty());
    assert(warnings.len() == 0 ==> warnings_from_wire(warnings) =~= Seq::<
        RunnerErrorView,
    >::empty());
}

/// Whether the kind is one that the engine does not decode yet.
pub open spec fn is_unimplemented(kind: PayloadType) -> bool {
    kind == PayloadType::PackageError || kind == PayloadType::UserErrors || kind
        == PayloadType::UserWarnings
}

/// A payload that declares a kind and holds no body for it never decodes:
/// the outcome is the error that names the kind whose body is missing.
pub proof fn lemma_missing_body_is_refused<T>(wire: WirePayloadView<T>)
    requires
        wire.payload_type() != PayloadType::NoPayload,
        !wire.has_body(),
    ensures
        decoded_payload(wire) == Err::<PayloadView<T>, DecodeErrorView>(
            DecodeErrorView::MissingSubpayload(wire.payload_type()),
        ),
{
}

/// A payload of a kind that the engine does not decode yet is never
/// dropped and never decoded: where its body is there, the outcome is the
/// error that names the kind as unimplemented.
pub proof fn lemma_unimplemented_kinds_are_refused<T>(wire: WirePayloadView<T>)
    requires
        is_unimplemented(wire.payload_type()),
        wire.has_body(),
    ensures
        decoded_payload(wire) == Err::<PayloadView<T>, DecodeErrorView>(
            DecodeErrorView::UnimplementedPayload(wire.payload_type()),
        ),
{
}

/// A message that decodes carries the simulation identity of its envelope,
/// and its payload is of the kind that the envelope declared.
pub proof fn lemma_decoding_keeps_identity_and_kind<T>(envelope: EnvelopeView<T>)
    ensures
        decoded_message(Ok(envelope)) matches Ok(message) ==> {
            &&& message.sim_id == envelope.sim_sid
            &&& message.source == Language::Python
            &&& message.payload.payload_type() == envelope.payload.payload_type()
        },
{
}

} // verus!
