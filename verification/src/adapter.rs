//! Encryption backends behind one interface: the terminal-automating shell
//! backend, the not yet available rage backend, and the factory that picks
//! one by name.  Running the external tool is the caller's.
use vstd::prelude::*;
use crate::config::OutputFormat;
use crate::error::{AgeError, AgeResult};
use crate::text::{owned, str_eq};
use crate::VERSION;

verus! {

/// An encryption backend.
///
/// Each backend says, through the relations below, which answers it may give
/// to a request; what it answers may depend on more than the request (on what
/// is on disk, say), so a relation may allow several answers for one request.
/// Callers can then state which requests they made by the answers they got.
/// A backend that says nothing more allows every answer.
pub trait AgeAdapter {
    /// `r` is an answer this backend may give to a request to encrypt
    /// `input` into `output` with `passphrase` in `format`.
    open spec fn encrypts(&self, input: Seq<char>, output: Seq<char>, passphrase: Seq<char>, format: OutputFormat, r: AgeResult<()>) -> bool {
        true
    }

    /// `r` is an answer this backend may give to a request to decrypt
    /// `input` into `output` with `passphrase`.
    open spec fn decrypts(&self, input: Seq<char>, output: Seq<char>, passphrase: Seq<char>, r: AgeResult<()>) -> bool {
        true
    }

    /// `r` is an answer this backend may give to a health check.
    open spec fn checks_health(&self, r: AgeResult<()>) -> bool {
        true
    }

    /// `name` may be this backend's name.
    open spec fn names(&self, name: Seq<char>) -> bool {
        true
    }

    /// `version` may be this backend's version.
    open spec fn versions(&self, version: Seq<char>) -> bool {
        true
    }

    /// Encrypts `input` into `output` with `passphrase`.
    fn encrypt(&self, input: &str, output: &str, passphrase: &str, format: OutputFormat) -> (r: AgeResult<()>)
        ensures
            self.encrypts(input@, output@, passphrase@, format, r),
    ;

    /// Decrypts `input` into `output` with `passphrase`.
    fn decrypt(&self, input: &str, output: &str, passphrase: &str) -> (r: AgeResult<()>)
        ensures
            self.decrypts(input@, output@, passphrase@, r),
    ;

    /// Checks that the backend works.
    fn health_check(&self) -> (r: AgeResult<()>)
        ensures
            self.checks_health(r),
    ;

    /// The backend's name.
    fn adapter_name(&self) -> (r: &'static str)
        ensures
            self.names(r@),
    ;

    /// The backend's version.
    fn adapter_version(&self) -> (r: String)
        ensures
            self.versions(r@),
    ;
}

/// What probing for the `age` binary found.
#[derive(Debug, Clone, PartialEq, Eq)]
pub enum AgeProbe {
    /// `age --version` ran and succeeded.
    Found,
    /// No terminal could be opened to run it, for the reason given.
    PtyUnavailable(String),
    /// The command could not be started.
    NotInPath,
    /// Waiting for the command failed, for the reason given.
    WaitFailed(String),
    /// The command ran and failed.
    VersionFailed,
}

/// The error, if any, of a probe for the `age` binary.
pub open spec fn probe_result(p: AgeProbe) -> Option<Seq<char>> {
    match p {
        AgeProbe::Found => None,
        AgeProbe::PtyUnavailable(e) => Some("PTY creation failed: "@ + e@),
        AgeProbe::NotInPath => Some("age command not found in PATH"@),
        AgeProbe::WaitFailed(e) => Some("Failed to run age --version: "@ + e@),
        AgeProbe::VersionFailed => Some("age --version failed"@),
    }
}

/// The backend that drives the `age` binary through a pseudo-terminal.
#[derive(Debug)]
pub struct ShellAdapter;

impl ShellAdapter {
    /// The shell backend.  (Its temporary directory and audit log are opened
    /// by the caller.)
    pub fn new() -> (r: AgeResult<Self>)
        ensures
            r is Ok,
    {
        Ok(ShellAdapter)
    }

    /// Whether the `age` binary is usable, from what probing it found.
    pub fn validate_dependencies(&self, probe: &AgeProbe) -> (r: AgeResult<()>)
        ensures
            match probe_result(*probe) {
                None => r is Ok,
                Some(m) => r matches Err(AgeError::AgeBinaryNotFound(d)) && d@ == m,
            },
    {
        match probe {
            AgeProbe::Found => Ok(()),
            AgeProbe::PtyUnavailable(e) => {
                let mut d = owned("PTY creation failed: ");
                d.append(e.as_str());
                Err(AgeError::AgeBinaryNotFound(d))
            },
            AgeProbe::NotInPath => Err(AgeError::AgeBinaryNotFound(owned("age command not found in PATH"))),
            AgeProbe::WaitFailed(e) => {
                let mut d = owned("Failed to run age --version: ");
                d.append(e.as_str());
                Err(AgeError::AgeBinaryNotFound(d))
            },
            AgeProbe::VersionFailed => Err(AgeError::AgeBinaryNotFound(owned("age --version failed"))),
        }
    }

    /// The automation methods available: the pseudo-terminal only.
    pub fn available_methods(&self) -> (r: Vec<String>)
        ensures
            r@.len() == 1,
            r@[0]@ == "pty"@,
    {
        let mut v: Vec<String> = Vec::new();
        v.push(owned("pty"));
        v
    }

    /// The backend's name.
    pub fn adapter_name(&self) -> (r: &'static str)
        ensures
            r@ == "ShellAdapter"@,
    {
        "ShellAdapter"
    }

    /// The backend's version: `shell-v<version>`.
    pub fn adapter_version(&self) -> (r: String)
        ensures
            r@ == "shell-v"@ + VERSION@,
    {
        let mut s = owned("shell-v");
        s.append(VERSION);
        s
    }
}

/// The backend built on the rage library, not yet available.
#[derive(Debug)]
pub struct RageAdapter {}

/// `e` says that the adapter feature `d` is not implemented.
pub open spec fn not_implemented(e: AgeError, d: Seq<char>) -> bool {
    e matches AgeError::AdapterNotImplemented(m) && m@ == d
}

impl RageAdapter {
    /// Always fails: the backend is not implemented.
    pub fn new() -> (r: AgeResult<Self>)
        ensures
            r matches Err(e) && not_implemented(e, "RageAdapter not yet implemented"@),
    {
        Err(AgeError::AdapterNotImplemented(owned("RageAdapter not yet implemented")))
    }
}

impl AgeAdapter for RageAdapter {
    open spec fn encrypts(&self, input: Seq<char>, output: Seq<char>, passphrase: Seq<char>, format: OutputFormat, r: AgeResult<()>) -> bool {
        r matches Err(e) && not_implemented(e, "RageAdapter encrypt not implemented"@)
    }

    open spec fn decrypts(&self, input: Seq<char>, output: Seq<char>, passphrase: Seq<char>, r: AgeResult<()>) -> bool {
        r matches Err(e) && not_implemented(e, "RageAdapter decrypt not implemented"@)
    }

    open spec fn checks_health(&self, r: AgeResult<()>) -> bool {
        r matches Err(e) && not_implemented(e, "RageAdapter health_check not implemented"@)
    }

    open spec fn names(&self, name: Seq<char>) -> bool {
        name == "RageAdapter"@
    }

    open spec fn versions(&self, version: Seq<char>) -> bool {
        version == "rage-v0.0.0-future"@
    }

    fn encrypt(&self, input: &str, output: &str, passphrase: &str, format: OutputFormat) -> (r: AgeResult<()>)
        ensures
            r matches Err(e) && not_implemented(e, "RageAdapter encrypt not implemented"@),
    {
        Err(AgeError::AdapterNotImplemented(owned("RageAdapter encrypt not implemented")))
    }

    fn decrypt(&self, input: &str, output: &str, passphrase: &str) -> (r: AgeResult<()>)
        ensures
            r matches Err(e) && not_implemented(e, "RageAdapter decrypt not implemented"@),
    {
        Err(AgeError::AdapterNotImplemented(owned("RageAdapter decrypt not implemented")))
    }

    fn health_check(&self) -> (r: AgeResult<()>)
        ensures
            r matches Err(e) && not_implemented(e, "RageAdapter health_check not implemented"@),
    {
        Err(AgeError::AdapterNotImplemented(owned("RageAdapter health_check not implemented")))
    }

    fn adapter_name(&self) -> (r: &'static str)
        ensures
            r@ == "RageAdapter"@,
    {
        "RageAdapter"
    }

    fn adapter_version(&self) -> (r: String)
        ensures
            r@ == "rage-v0.0.0-future"@,
    {
        owned("rage-v0.0.0-future")
    }
}

/// A backend chosen by the factory.
#[derive(Debug)]
pub enum SelectedAdapter {
    Shell(ShellAdapter),
    Rage(RageAdapter),
}

/// Picks backends by name.
#[derive(Debug)]
pub struct AdapterFactory;

impl AdapterFactory {
    /// The default backend: the shell one.
    pub fn create_default() -> (r: AgeResult<SelectedAdapter>)
        ensures
            r matches Ok(SelectedAdapter::Shell(_)),
    {
        match ShellAdapter::new() {
            Ok(a) => Ok(SelectedAdapter::Shell(a)),
            Err(e) => Err(e),
        }
    }

    /// The backend named `adapter_type`: `shell` is made, `rage` fails as not
    /// implemented, any other name is refused.
    pub fn create_adapter(adapter_type: &str) -> (r: AgeResult<SelectedAdapter>)
        ensures
            adapter_type@ == "shell"@ ==> r matches Ok(SelectedAdapter::Shell(_)),
            adapter_type@ == "rage"@ ==> (r matches Err(e) && not_implemented(
                e,
                "RageAdapter not yet implemented"@,
            )),
            adapter_type@ != "shell"@ && adapter_type@ != "rage"@ ==> (r matches Err(AgeError::InvalidAdapter(m))
                && m@ == "Unknown adapter type: "@ + adapter_type@),
    {
        proof {
            reveal_strlit("shell");
            reveal_strlit("rage");
            assert("rage"@ != "shell"@) by {
                assert("rage"@.len() != "shell"@.len());
            }
        }
        if str_eq(adapter_type, "shell") {
            match ShellAdapter::new() {
                Ok(a) => Ok(SelectedAdapter::Shell(a)),
                Err(e) => Err(e),
            }
        } else if str_eq(adapter_type, "rage") {
            let r = RageAdapter::new();
            assert(r matches Err(e) && not_implemented(e, "RageAdapter not yet implemented"@));
            match r {
                Ok(a) => Ok(SelectedAdapter::Rage(a)),
                Err(e) => {
                    assert(not_implemented(e, "RageAdapter not yet implemented"@));
                    Err(e)
                },
            }
        } else {
            let mut m = owned("Unknown adapter type: ");
            m.append(adapter_type);
            Err(AgeError::InvalidAdapter(m))
        }
    }

    /// The backends there are: `shell` and `rage`.
    pub fn available_adapters() -> (r: Vec<&'static str>)
        ensures
            r@.map_values(|s: &str| s@) == seq!["shell"@, "rage"@],
    {
        let v = vec!["shell", "rage"];
        assert(v@.map_values(|s: &str| s@) =~= seq!["shell"@, "rage"@]);
        v
    }

    /// The backend to use: the shell one.
    pub fn recommended_adapter() -> (r: &'static str)
        ensures
            r@ == "shell"@,
    {
        "shell"
    }
}

} // verus!
