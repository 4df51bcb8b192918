use vstd::prelude::*;

use crate::error::LinkError;

verus! {

/// Shared record of the device: its port path, whether a live transport is
/// held, and the last telemetry byte (temperature).
#[derive(Clone, Debug)]
pub struct MCUData {
    pub name: String,
    pub is_active: bool,
    pub temperature: u8,
}

impl MCUData {
    /// A record for the device at `name`, not yet connected.
    pub fn new(name: String) -> (r: Self)
        ensures
            r.name@ == name@,
            !r.is_active,
            r.temperature == 0,
    {
        MCUData { name, is_active: false, temperature: 0 }
    }

    pub fn set_connected(&mut self, connected: bool)
        ensures
            final(self).is_active == connected,
            final(self).name@ == old(self).name@,
            final(self).temperature == old(self).temperature,
    {
        self.is_active = connected;
    }

    pub fn set_telemetry(&mut self, temperature: u8)
        ensures
            final(self).temperature == temperature,
            final(self).name@ == old(self).name@,
            final(self).is_active == old(self).is_active,
    {
        self.temperature = temperature;
    }
}

/// One submission: the source text and, once compiled, the binary image.
#[derive(Clone, Debug)]
pub struct Code {
    pub code: String,
    pub compiled: Option<Vec<u8>>,
}

impl Code {
    /// An empty submission.
    pub fn new() -> (r: Self)
        ensures
            r.code@ == Seq::<char>::empty(),
            r.compiled.is_none(),
    {
        Code { code: String::new(), compiled: None }
    }

    /// A submission of `str`, not yet compiled.
    pub fn from_string(str: String) -> (r: Self)
        ensures
            r.code@ == str@,
            r.compiled.is_none(),
    {
        Code { code: str, compiled: None }
    }

    /// Takes the outcome of one run of the cross-compiler: whether it exited
    /// with success, the artifact it left (if any) and what it printed. The
    /// build succeeds only when both hold; otherwise the diagnostics are
    /// surfaced as a `CompileError` and no binary is kept.
    pub fn record_build(&mut self, exit_ok: bool, artifact: Option<Vec<u8>>, diagnostics: String) -> (r: Result<(), LinkError>)
        ensures
            final(self).code@ == old(self).code@,
            r.is_ok() <==> (exit_ok && artifact.is_some()),
            r.is_ok() ==> final(self).compiled == artifact,
            r.is_err() ==> final(self).compiled.is_none(),
            r.is_err() ==> r == Err::<(), LinkError>(LinkError::CompileError(diagnostics)),
    {
        if exit_ok && artifact.is_some() {
            self.compiled = artifact;
            Ok(())
        } else {
            self.compiled = None;
            Err(LinkError::CompileError(diagnostics))
        }
    }
}

} // verus!
