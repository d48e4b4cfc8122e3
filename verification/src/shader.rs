//! Judging what the driver reports of compiling and linking a program.

use vstd::prelude::*;
use vstd::string::*;
use crate::error::{viewed, ErrorView, RenderError, ShaderStage};

verus! {

/// What the driver reports of one compile or of the link.
#[derive(Clone, Debug, PartialEq, Eq)]
pub enum DriverReport {
    /// The device gave no shader or program object to work on.
    NoObject,
    /// The stage compiled, or the program linked.
    Success,
    /// The driver rejected it; `log` is its diagnostic text, if it gave one.
    Failure { log: Option<String> },
}

/// The mathematical content of a [`DriverReport`].
pub enum ReportView {
    NoObject,
    Success,
    Failure { log: Option<Seq<char>> },
}

impl View for DriverReport {
    type V = ReportView;

    open spec fn view(&self) -> ReportView {
        match self {
            DriverReport::NoObject => ReportView::NoObject,
            DriverReport::Success => ReportView::Success,
            DriverReport::Failure { log } => ReportView::Failure {
                log: match log {
                    Some(text) => Some(text@),
                    None => None,
                },
            },
        }
    }
}

/// The sources of the two stages.
#[derive(Clone, Debug, PartialEq, Eq)]
pub struct ShaderSources {
    pub vertex: String,
    pub fragment: String,
}

/// What is kept of a linked program: where its position attribute lives.
#[derive(Clone, Copy, Debug, PartialEq, Eq, Structural)]
pub struct ShaderProgram {
    /// The location the driver gave for the position attribute, negative
    /// where the program has no such attribute.
    pub position: i32,
}

/// The text that goes into a compile error, which is never empty: the
/// driver's log where it gave a non-empty one, and `generic` otherwise.
pub open spec fn diagnostic(log: Option<Seq<char>>, generic: Seq<char>) -> Seq<char> {
    match log {
        Some(text) => if text.len() > 0 {
            text
        } else {
            generic
        },
        None => generic,
    }
}

/// Whether a stage may be used, by the driver's report of compiling it.
pub open spec fn stage_verdict(stage: ShaderStage, report: ReportView) -> Result<(), ErrorView> {
    match report {
        ReportView::Success => Ok(()),
        ReportView::NoObject => Err(
            ErrorView::ShaderCompileError { stage, log: "Unable to create shader object"@ },
        ),
        ReportView::Failure { log } => Err(
            ErrorView::ShaderCompileError {
                stage,
                log: diagnostic(log, "Unknown error creating shader"@),
            },
        ),
    }
}

/// The text that goes into a link error: the driver's log as it came, be
/// it empty, and `generic` where the driver gave none.
pub open spec fn carried(log: Option<Seq<char>>, generic: Seq<char>) -> Seq<char> {
    match log {
        Some(text) => text,
        None => generic,
    }
}

/// Whether the program may be used, by the driver's report of linking it.
pub open spec fn link_verdict(report: ReportView) -> Result<(), ErrorView> {
    match report {
        ReportView::Success => Ok(()),
        ReportView::NoObject => Err(
            ErrorView::ProgramLinkError { log: "Unable to create shader object"@ },
        ),
        ReportView::Failure { log } => Err(
            ErrorView::ProgramLinkError {
                log: carried(log, "Unknown error creating program object"@),
            },
        ),
    }
}

/// What the driver reports of one compile or of the link, from what the
/// host read: whether the device gave an object to work on, the status the
/// driver gave as far as it is a boolean, and the log it gave. Only the
/// status `true` is a success; a status that is `false` or no boolean at all
/// is a failure.
pub open spec fn reported(created: bool, status: Option<bool>, log: Option<Seq<char>>) -> ReportView {
    if !created {
        ReportView::NoObject
    } else if status == Some(true) {
        ReportView::Success
    } else {
        ReportView::Failure { log }
    }
}

/// The whole build: the vertex stage is judged first, then the fragment
/// stage, then the link; the first failure is the outcome.
pub open spec fn built(
    vertex: ReportView,
    fragment: ReportView,
    link: ReportView,
    position: i32,
) -> Result<ShaderProgram, ErrorView> {
    match stage_verdict(ShaderStage::Vertex, vertex) {
        Err(e) => Err(e),
        Ok(_) => match stage_verdict(ShaderStage::Fragment, fragment) {
            Err(e) => Err(e),
            Ok(_) => match link_verdict(link) {
                Err(e) => Err(e),
                Ok(_) => Ok(ShaderProgram { position }),
            },
        },
    }
}

/// The name of the attribute that carries a vertex's position.
pub fn position_attribute() -> (name: &'static str)
    ensures
        name@ == "position"@,
{
    "position"
}

/// The default vertex stage: the position goes through unchanged.
pub fn passthrough_source() -> (source: String)
    ensures
        source@ == "attribute vec4 position;\nvoid main() {\n    gl_Position = position;\n}\n"@,
{
    "attribute vec4 position;\nvoid main() {\n    gl_Position = position;\n}\n".to_owned()
}

/// The default fragment stage: one opaque fill color.
pub fn solid_fill_source() -> (source: String)
    ensures
        source@ == "void main() {\n    gl_FragColor = vec4(1.0, 0.0, 0.0, 1.0);\n}\n"@,
{
    "void main() {\n    gl_FragColor = vec4(1.0, 0.0, 0.0, 1.0);\n}\n".to_owned()
}

impl ShaderSources {
    /// The two default stages.
    pub fn defaults() -> (sources: ShaderSources)
        ensures
            sources.vertex@ == "attribute vec4 position;\nvoid main() {\n    gl_Position = position;\n}\n"@,
            sources.fragment@ == "void main() {\n    gl_FragColor = vec4(1.0, 0.0, 0.0, 1.0);\n}\n"@,
    {
        ShaderSources { vertex: passthrough_source(), fragment: solid_fill_source() }
    }
}

impl DriverReport {
    /// A copy of the report.
    pub fn duplicate(&self) -> (copy: DriverReport)
        ensures
            copy@ == self@,
    {
        match self {
            DriverReport::NoObject => DriverReport::NoObject,
            DriverReport::Success => DriverReport::Success,
            DriverReport::Failure { log } => match log {
                Some(text) => DriverReport::Failure { log: Some(text.clone()) },
                None => DriverReport::Failure { log: None },
            },
        }
    }
}

/// The driver's log where it gave a non-empty one, `generic` otherwise.
fn diagnostic_text(log: Option<String>, generic: &str) -> (text: String)
    ensures
        text@ == diagnostic(
            match log {
                Some(t) => Some(t@),
                None => None,
            },
            generic@,
        ),
{
    match log {
        Some(text) => {
            if text.as_str().is_empty() {
                generic.to_owned()
            } else {
                text
            }
        },
        None => generic.to_owned(),
    }
}

/// Judges the driver's report of compiling `stage`. It fails exactly when
/// the report is not a success, with a `ShaderCompileError` that names the
/// stage and carries a log that is never empty.
pub fn check_stage(stage: ShaderStage, report: DriverReport) -> (result: Result<(), RenderError>)
    ensures
        viewed(result) == stage_verdict(stage, report@),
        result is Ok <==> report == DriverReport::Success,
        result matches Err(e) ==> (e@ matches ErrorView::ShaderCompileError { stage: s, log }
            && s == stage && log.len() > 0),
{
    proof {
        reveal_strlit("Unable to create shader object");
        reveal_strlit("Unknown error creating shader");
    }
    match report {
        DriverReport::Success => Ok(()),
        DriverReport::NoObject => Err(
            RenderError::ShaderCompileError {
                stage,
                log: "Unable to create shader object".to_owned(),
            },
        ),
        DriverReport::Failure { log } => Err(
            RenderError::ShaderCompileError {
                stage,
                log: diagnostic_text(log, "Unknown error creating shader"),
            },
        ),
    }
}

/// Judges the driver's report of linking. It fails exactly when the report
/// is not a success, with a `ProgramLinkError` that carries the driver's log
/// unchanged, and a fixed text where the driver gave no log or the device
/// no object.
pub fn check_link(report: DriverReport) -> (result: Result<(), RenderError>)
    ensures
        viewed(result) == link_verdict(report@),
        result is Ok <==> report == DriverReport::Success,
        result matches Err(e) ==> e@ is ProgramLinkError,
        report matches DriverReport::Failure { log: Some(text) } ==> viewed(result) == Err::<
            (),
            ErrorView,
        >(ErrorView::ProgramLinkError { log: text@ }),
{
    match report {
        DriverReport::Success => Ok(()),
        DriverReport::NoObject => Err(
            RenderError::ProgramLinkError { log: "Unable to create shader object".to_owned() },
        ),
        DriverReport::Failure { log } => Err(
            RenderError::ProgramLinkError {
                log: match log {
                    Some(text) => text,
                    None => "Unknown error creating program object".to_owned(),
                },
            },
        ),
    }
}

/// Puts together what the driver reports of one compile or of the link from
/// what the host read: whether the device gave an object, the status as far
/// as it is a boolean, and the log. Only the status `true` is a success.
pub fn report_of(created: bool, status: Option<bool>, log: Option<String>) -> (report: DriverReport)
    ensures
        report@ == reported(
            created,
            status,
            match log {
                Some(t) => Some(t@),
                None => None,
            },
        ),
{
    if !created {
        DriverReport::NoObject
    } else {
        match status {
            Some(true) => DriverReport::Success,
            _ => DriverReport::Failure { log },
        }
    }
}

/// Judges a whole build from the three reports and the attribute location.
/// The reports are read in the order vertex, fragment, link, and the first
/// that is not a success decides the error.
pub fn build(
    vertex: DriverReport,
    fragment: DriverReport,
    link: DriverReport,
    position: i32,
) -> (result: Result<ShaderProgram, RenderError>)
    ensures
        viewed(result) == built(vertex@, fragment@, link@, position),
        result is Ok <==> (vertex == DriverReport::Success && fragment == DriverReport::Success
            && link == DriverReport::Success),
{
    match check_stage(ShaderStage::Vertex, vertex) {
        Err(e) => Err(e),
        Ok(_) => match check_stage(ShaderStage::Fragment, fragment) {
            Err(e) => Err(e),
            Ok(_) => match check_link(link) {
                Err(e) => Err(e),
                Ok(_) => Ok(ShaderProgram { position }),
            },
        },
    }
}

} // verus!
