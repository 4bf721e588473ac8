//! Subprocesses that ran to their end.
use crate::errslop::AuxItem;
use crate::logging::result;
use vstd::prelude::*;
use vstd::string::*;

verus! {

/// A subprocess that ran to its end: whether it exited with success, and
/// what came of feeding and reading it. Each stream went well or failed with
/// a reason.
#[derive(Debug)]
pub struct CompletedProcess {
    pub success: bool,
    /// how the exit is shown
    pub exit: String,
    pub stdin: std::result::Result<(), String>,
    pub stdout: std::result::Result<String, String>,
    pub stderr: std::result::Result<String, String>,
}

/// Why a subprocess is of no use.
#[derive(Debug)]
pub enum Error {
    Spawn(String),
    Wait(String),
    NoIo,
    BadExitOrOutputError { aux: Vec<AuxItem> },
}

pub type Result<T, E = Error> = std::result::Result<T, E>;

impl CompletedProcess {
    /// What the process wrote, where it exited with success and what it
    /// wrote could be read.
    pub fn successful_output(&self) -> (r: std::result::Result<&String, &CompletedProcess>)
        ensures
            r is Ok <==> self.success && self.stdout is Ok,
            r matches Ok(out) ==> *out == self.stdout->Ok_0,
            r matches Err(p) ==> *p == *self,
    {
        if !self.success {
            return Err(self);
        }
        match &self.stdout {
            Ok(stdout) => Ok(stdout),
            Err(_) => Err(self),
        }
    }

    /// What the process wrote, where it exited with success and what it
    /// wrote could be read; else an error that shows the exit and both
    /// streams.
    pub fn into_stdout(self) -> (r: Result<String>)
        ensures
            r is Ok <==> self.success && self.stdout is Ok,
            r matches Ok(out) ==> out == self.stdout->Ok_0,
            r matches Err(e) ==> ({
                &&& e matches Error::BadExitOrOutputError { aux }
                &&& aux@.len() == 3
                &&& aux@[0].label@ == "exit"@ && aux@[0].value == self.exit
                &&& aux@[1].label@ == "stdout"@
                &&& aux@[2].label@ == "stderr"@
            }),
    {
        let CompletedProcess { success, exit, stdin, stdout, stderr } = self;
        if success {
            match stdout {
                Ok(out) => return Ok(out),
                Err(why) => {
                    let mut aux: Vec<AuxItem> = Vec::new();
                    aux.push(AuxItem { label: "exit", value: exit });
                    aux.push(AuxItem { label: "stdout", value: result(&Err(why)) });
                    aux.push(AuxItem { label: "stderr", value: result(&stderr) });
                    return Err(Error::BadExitOrOutputError { aux });
                },
            }
        }
        let mut aux: Vec<AuxItem> = Vec::new();
        aux.push(AuxItem { label: "exit", value: exit });
        aux.push(AuxItem { label: "stdout", value: result(&stdout) });
        aux.push(AuxItem { label: "stderr", value: result(&stderr) });
        Err(Error::BadExitOrOutputError { aux })
    }
}

} // verus!
