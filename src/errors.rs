//! The engine's errors and the error codes of its C interface.
use vstd::prelude::*;

verus! {

/// Errors of the view registry.
#[derive(Debug)]
pub enum ViewError {
    DuplicateViewName(String),
    MissingViewName(String),
    MissingViewID(usize),
    ThreadingErr(String),
}

/// Errors the engine reports to its caller.
#[derive(Debug)]
pub enum EngineError {
    PipelineRunning,
    PipelineNotRunning,
    PluginVersionMismatch(String),
    PluginError(String),
    ProcessingError(String),
    ViewError(ViewError),
}

/// The error codes of the C interface.
#[derive(Clone, Copy, Debug, PartialEq, Eq, Structural)]
pub enum PVMErr {
    EUNKNOWN,
    EAMBIGUOUSVIEWNAME,
    ENOVIEWWITHNAME,
    ENOVIEWWITHID,
    EINVALIDARG,
    EPIPELINENOTRUNNING,
    EPIPELINERUNNING,
    EPLUGINLOAD,
    ETHREADSTARTUP,
}

pub open spec fn code_of(e: PVMErr) -> int {
    match e {
        PVMErr::EUNKNOWN => 1,
        PVMErr::EAMBIGUOUSVIEWNAME => 2,
        PVMErr::ENOVIEWWITHNAME => 3,
        PVMErr::EINVALIDARG => 4,
        PVMErr::ENOVIEWWITHID => 5,
        PVMErr::EPIPELINENOTRUNNING => 6,
        PVMErr::EPIPELINERUNNING => 7,
        PVMErr::EPLUGINLOAD => 8,
        PVMErr::ETHREADSTARTUP => 9,
    }
}

/// The code of an engine error.
pub open spec fn err_of(e: EngineError) -> PVMErr {
    match e {
        EngineError::PipelineRunning => PVMErr::EPIPELINERUNNING,
        EngineError::PipelineNotRunning => PVMErr::EPIPELINENOTRUNNING,
        EngineError::PluginVersionMismatch(_) => PVMErr::EPLUGINLOAD,
        EngineError::PluginError(_) => PVMErr::EPLUGINLOAD,
        EngineError::ProcessingError(_) => PVMErr::EUNKNOWN,
        EngineError::ViewError(v) => match v {
            ViewError::ThreadingErr(_) => PVMErr::ETHREADSTARTUP,
            ViewError::DuplicateViewName(_) => PVMErr::EAMBIGUOUSVIEWNAME,
            ViewError::MissingViewID(_) => PVMErr::ENOVIEWWITHID,
            ViewError::MissingViewName(_) => PVMErr::ENOVIEWWITHNAME,
        },
    }
}

impl PVMErr {
    /// The code's number.
    pub fn code(&self) -> (r: isize)
        ensures
            r == code_of(*self),
    {
        match self {
            PVMErr::EUNKNOWN => 1,
            PVMErr::EAMBIGUOUSVIEWNAME => 2,
            PVMErr::ENOVIEWWITHNAME => 3,
            PVMErr::EINVALIDARG => 4,
            PVMErr::ENOVIEWWITHID => 5,
            PVMErr::EPIPELINENOTRUNNING => 6,
            PVMErr::EPIPELINERUNNING => 7,
            PVMErr::EPLUGINLOAD => 8,
            PVMErr::ETHREADSTARTUP => 9,
        }
    }
}

impl From<EngineError> for PVMErr {
    fn from(val: EngineError) -> (r: PVMErr) {
        match val {
            EngineError::PipelineRunning => PVMErr::EPIPELINERUNNING,
            EngineError::PipelineNotRunning => PVMErr::EPIPELINENOTRUNNING,
            EngineError::PluginVersionMismatch(_) => PVMErr::EPLUGINLOAD,
            EngineError::PluginError(_) => PVMErr::EPLUGINLOAD,
            EngineError::ProcessingError(_) => PVMErr::EUNKNOWN,
            EngineError::ViewError(e) => match e {
                ViewError::ThreadingErr(_) => PVMErr::ETHREADSTARTUP,
                ViewError::DuplicateViewName(_) => PVMErr::EAMBIGUOUSVIEWNAME,
                ViewError::MissingViewID(_) => PVMErr::ENOVIEWWITHID,
                ViewError::MissingViewName(_) => PVMErr::ENOVIEWWITHNAME,
            },
        }
    }
}

impl vstd::std_specs::convert::FromSpecImpl<EngineError> for PVMErr {
    open spec fn obeys_from_spec() -> bool {
        true
    }

    open spec fn from_spec(v: EngineError) -> PVMErr {
        err_of(v)
    }
}

/// The negated code of `err`, as the C interface returns it.
pub fn ret(err: EngineError) -> (r: isize)
    ensures
        r == -code_of(err_of(err)),
{
    let e = PVMErr::from(err);
    -e.code()
}

} // verus!
