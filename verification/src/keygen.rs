//! Key generation: the request and its validation, what a request asks to be
//! done, the registration of the new key with recipient groups, and the
//! errors of the workflow.  Running `age-keygen` and writing files is the
//! caller's.
use vstd::prelude::*;
use crate::config::AgeConfig;
use crate::text::{dec_digits, owned, u64_to_string, views};

verus! {

/// Why key generation failed.
#[derive(Debug, PartialEq, Eq)]
pub enum KeygenError {
    NotImplemented,
    InvalidRequest(String),
    Io(String),
    Subprocess(String),
    FileExists(String),
    BinaryNotFound(String),
    InvalidGroup(String),
}

/// The message of a key generation error.
pub open spec fn keygen_message(e: KeygenError) -> Seq<char> {
    match e {
        KeygenError::NotImplemented => "key generation is not implemented yet"@,
        KeygenError::InvalidRequest(s) => "invalid key generation request: "@ + s@,
        KeygenError::Io(s) => "key generation I/O error: "@ + s@,
        KeygenError::Subprocess(s) => "key generation subprocess failed: "@ + s@,
        KeygenError::FileExists(s) => "file already exists: "@ + s@ + " (use --force to overwrite)"@,
        KeygenError::BinaryNotFound(s) => "required binary not found: "@ + s@
            + ". Please install age-keygen (https://github.com/FiloSottile/age)"@,
        KeygenError::InvalidGroup(s) => "invalid recipient group: "@ + s@,
    }
}

/// `a`, `b` and `c` in one string.
fn concat3(a: &str, b: &str, c: &str) -> (r: String)
    ensures
        r@ == a@ + b@ + c@,
{
    let mut s = owned(a);
    s.append(b);
    s.append(c);
    s
}

impl KeygenError {
    /// The operator-facing message of the error.
    pub fn message(&self) -> (r: String)
        ensures
            r@ == keygen_message(*self),
    {
        proof {
            reveal_strlit("");
            assert(""@ =~= Seq::<char>::empty());
        }
        match self {
            KeygenError::NotImplemented => owned("key generation is not implemented yet"),
            KeygenError::InvalidRequest(s) => concat3("invalid key generation request: ", s.as_str(), ""),
            KeygenError::Io(s) => concat3("key generation I/O error: ", s.as_str(), ""),
            KeygenError::Subprocess(s) => concat3("key generation subprocess failed: ", s.as_str(), ""),
            KeygenError::FileExists(s) => concat3("file already exists: ", s.as_str(), " (use --force to overwrite)"),
            KeygenError::BinaryNotFound(s) => concat3(
                "required binary not found: ",
                s.as_str(),
                ". Please install age-keygen (https://github.com/FiloSottile/age)",
            ),
            KeygenError::InvalidGroup(s) => concat3("invalid recipient group: ", s.as_str(), ""),
        }
    }
}

/// What is asked of key generation.
#[derive(Debug, Clone, PartialEq, Eq)]
pub struct KeygenRequest {
    pub output_path: Option<String>,
    /// The identity whose recipient is wanted, in recipients-only mode.
    pub input_path: Option<String>,
    /// Groups to register the new public key with.
    pub register_groups: Vec<String>,
    pub recipients_only: bool,
    pub force: bool,
    pub stdout_only: bool,
    pub json_output: bool,
    /// Pass through to `age-keygen` directly.
    pub proxy_mode: bool,
    /// Generate into the current directory without registering.
    pub export_mode: bool,
}

impl Default for KeygenRequest {
    fn default() -> (r: Self)
        ensures
            r.output_path is None,
            r.input_path is None,
            r.register_groups.len() == 0,
            !r.recipients_only && !r.force && !r.stdout_only && !r.json_output && !r.proxy_mode
                && !r.export_mode,
    {
        KeygenRequest {
            output_path: None,
            input_path: None,
            register_groups: Vec::new(),
            recipients_only: false,
            force: false,
            stdout_only: false,
            json_output: false,
            proxy_mode: false,
            export_mode: false,
        }
    }
}

/// What a key generation produced.
#[derive(Debug, Clone, PartialEq, Eq)]
pub struct KeygenSummary {
    pub output_path: Option<String>,
    pub public_recipient: Option<String>,
    pub fingerprint_md5: Option<String>,
    pub fingerprint_sha256: Option<String>,
    pub registered_groups: Vec<String>,
}

/// Where a new identity is written.
#[derive(Debug, Clone, PartialEq, Eq)]
pub enum OutputChoice {
    /// The path the request names.
    Explicit(String),
    /// The export location.
    Export,
    /// The default location.
    Default,
}

/// What a valid request asks to be done.
#[derive(Debug, Clone, PartialEq, Eq)]
pub enum KeygenPlan {
    /// Derive the recipient of the identity at this path.
    RecipientsOnly(String),
    /// Pass through to `age-keygen`.
    Proxy,
    /// Generate an identity.
    Generate(OutputChoice),
}

/// `e` is an invalid-request error with message `m`.
pub open spec fn invalid_request(e: KeygenError, m: Seq<char>) -> bool {
    e matches KeygenError::InvalidRequest(s) && s@ == m
}

/// The name of the identity file made at clock reading `timestamp` (seconds
/// since the epoch): `identity-<timestamp>.agekey`.
pub fn default_identity_path(timestamp: u64) -> (r: String)
    ensures
        r@ == "identity-"@ + dec_digits(timestamp as nat) + ".agekey"@,
{
    concat3("identity-", u64_to_string(timestamp).as_str(), ".agekey")
}

/// Whether `age-keygen` was found.
pub fn check_age_keygen_available(found: bool) -> (r: Result<(), KeygenError>)
    ensures
        found ==> r is Ok,
        !found ==> (r matches Err(KeygenError::BinaryNotFound(s)) && s@ == "age-keygen"@),
{
    if found {
        Ok(())
    } else {
        Err(KeygenError::BinaryNotFound(owned("age-keygen")))
    }
}

/// Refuses to overwrite an existing file unless forced.
pub fn check_overwrite(path: &str, exists: bool, force: bool) -> (r: Result<(), KeygenError>)
    ensures
        exists && !force ==> (r matches Err(KeygenError::FileExists(s)) && s@ == path@),
        !(exists && !force) ==> r is Ok,
{
    if exists && !force {
        Err(KeygenError::FileExists(owned(path)))
    } else {
        Ok(())
    }
}

/// The key generation service, with the configuration it registers keys in.
#[derive(Debug)]
pub struct KeygenService {
    config: Option<AgeConfig>,
}

impl Default for KeygenService {
    fn default() -> (s: Self)
        ensures
            s.spec_config() is None,
    {
        KeygenService { config: None }
    }
}

impl KeygenService {
    pub closed spec fn spec_config(&self) -> Option<AgeConfig> {
        self.config
    }

    /// A service with configuration `config`, if any.
    pub fn new(config: Option<AgeConfig>) -> (s: Self)
        ensures
            s.spec_config() == config,
    {
        KeygenService { config }
    }

    /// The configuration, if any.
    pub fn config(&self) -> (r: Option<&AgeConfig>)
        ensures
            r == match self.spec_config() {
                Some(c) => Some(&c),
                None => None,
            },
    {
        self.config.as_ref()
    }

    /// Refuses registration together with export or recipients-only mode.
    pub fn validate_request(&self, request: &KeygenRequest) -> (r: Result<(), KeygenError>)
        ensures
            request.export_mode && request.register_groups.len() > 0 ==> (r matches Err(e)
                && invalid_request(e, "--export cannot be used with --register"@)),
            !(request.export_mode && request.register_groups.len() > 0) && request.recipients_only
                && request.register_groups.len() > 0 ==> (r matches Err(e) && invalid_request(
                e,
                "--recipients-only cannot be used with --register"@,
            )),
            request.register_groups.len() == 0 || !(request.export_mode || request.recipients_only) ==> r is Ok,
    {
        if request.export_mode && request.register_groups.len() > 0 {
            return Err(KeygenError::InvalidRequest(owned("--export cannot be used with --register")));
        }
        if request.recipients_only && request.register_groups.len() > 0 {
            return Err(KeygenError::InvalidRequest(owned("--recipients-only cannot be used with --register")));
        }
        Ok(())
    }

    /// What `request` asks to be done, once validated: recipients-only mode
    /// (which needs an input identity: reading one from standard input is
    /// not implemented), proxy mode, or generation into the path named, the
    /// export location or the default location.
    pub fn generate(&self, request: &KeygenRequest) -> (r: Result<KeygenPlan, KeygenError>)
        ensures
            request.export_mode && request.register_groups.len() > 0 ==> (r matches Err(e)
                && invalid_request(e, "--export cannot be used with --register"@)),
            !(request.export_mode && request.register_groups.len() > 0) && request.recipients_only
                && request.register_groups.len() > 0 ==> (r matches Err(e) && invalid_request(
                e,
                "--recipients-only cannot be used with --register"@,
            )),
            (request.register_groups.len() == 0 || !(request.export_mode || request.recipients_only)) ==> {
                if request.recipients_only {
                    match request.input_path {
                        Some(p) => r matches Ok(KeygenPlan::RecipientsOnly(q)) && q@ == p@,
                        None => r == Err::<KeygenPlan, KeygenError>(KeygenError::NotImplemented),
                    }
                } else if request.proxy_mode {
                    r == Ok::<KeygenPlan, KeygenError>(KeygenPlan::Proxy)
                } else {
                    match request.output_path {
                        Some(p) => r matches Ok(KeygenPlan::Generate(OutputChoice::Explicit(q))) && q@ == p@,
                        None => if request.export_mode {
                            r == Ok::<KeygenPlan, KeygenError>(KeygenPlan::Generate(OutputChoice::Export))
                        } else {
                            r == Ok::<KeygenPlan, KeygenError>(KeygenPlan::Generate(OutputChoice::Default))
                        },
                    }
                }
            },
    {
        match self.validate_request(request) {
            Ok(()) => {},
            Err(e) => {
                return Err(e);
            },
        }
        if request.recipients_only {
            return match &request.input_path {
                Some(p) => Ok(KeygenPlan::RecipientsOnly(p.clone())),
                None => Err(KeygenError::NotImplemented),
            };
        }
        if request.proxy_mode {
            return Ok(KeygenPlan::Proxy);
        }
        match &request.output_path {
            Some(p) => Ok(KeygenPlan::Generate(OutputChoice::Explicit(p.clone()))),
            None => {
                if request.export_mode {
                    Ok(KeygenPlan::Generate(OutputChoice::Export))
                } else {
                    Ok(KeygenPlan::Generate(OutputChoice::Default))
                }
            },
        }
    }

    /// The groups a new key is registered with, `group_exists[i]` telling
    /// whether the `i`th exists: all of them, if the service has a
    /// configuration and they all exist; otherwise the first failure.
    pub fn register_with_groups(&self, groups: &Vec<String>, group_exists: &Vec<bool>) -> (r: Result<Vec<String>, KeygenError>)
        requires
            group_exists.len() == groups.len(),
        ensures
            self.spec_config() is None ==> (r matches Err(e) && invalid_request(
                e,
                "config required for group registration"@,
            )),
            self.spec_config() is Some && (forall|i: int| 0 <= i < groups.len() ==> #[trigger] group_exists@[i])
                ==> (r matches Ok(v) && views(v@) == views(groups@)),
            self.spec_config() is Some && (exists|i: int| 0 <= i < groups.len() && !#[trigger] group_exists@[i])
                ==> (r matches Err(KeygenError::InvalidGroup(g)) && exists|i: int|
                0 <= i < groups.len() && !group_exists@[i] && g@ == groups@[i]@ && (forall|j: int|
                0 <= j < i ==> #[trigger] group_exists@[j])),
    {
        if self.config.is_none() {
            return Err(KeygenError::InvalidRequest(owned("config required for group registration")));
        }
        let mut registered: Vec<String> = Vec::new();
        let mut i: usize = 0;
        while i < groups.len()
            invariant
                i <= groups.len(),
                group_exists.len() == groups.len(),
                self.spec_config() is Some,
                forall|j: int| 0 <= j < i ==> #[trigger] group_exists@[j],
                views(registered@) == views(groups@).take(i as int),
            decreases groups.len() - i,
        {
            if !group_exists[i] {
                return Err(KeygenError::InvalidGroup(groups[i].clone()));
            }
            let ghost before = registered@;
            registered.push(groups[i].clone());
            assert(views(registered@) =~= views(before).push(groups@[i as int]@));
            i = i + 1;
            assert(views(registered@) =~= views(groups@).take(i as int));
        }
        assert(views(groups@).take(groups.len() as int) =~= views(groups@));
        Ok(registered)
    }
}

} // verus!
