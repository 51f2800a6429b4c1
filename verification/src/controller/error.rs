use vstd::prelude::*;

verus! {

/// Failures around the control channel and its streams.
#[derive(Debug, Clone, PartialEq, Eq)]
pub enum ProcessErr {
    ReadFromChannelFail(String),
    ReadFromStreamFail(String),
    WriteToStreamFailed(String),
    ChannelUsedBeforeInited(String),
    StreamUsedBeforeInited(String),
    ShutdownStreamFailed(String, String),
    CreateServerFailed(String),
}

} // verus!
