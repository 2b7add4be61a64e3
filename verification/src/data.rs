//! The daemon's data model: the launch specification and DNS request
//! bodies, the tracked-process and DNS-override state records, the error
//! kinds, and the uniform response envelope.

use vstd::prelude::*;

verus! {

/// Mathematical value of a [`StartBody`].
pub ghost struct StartBodyV {
    pub bin_path: Seq<char>,
    pub args: Seq<Seq<char>>,
    pub log_file: Seq<char>,
}

/// A request to start a child process: the executable, its arguments, and
/// the file its output is sent to.
pub struct StartBody {
    pub bin_path: String,
    pub args: Vec<String>,
    pub log_file: String,
}

impl View for StartBody {
    type V = StartBodyV;

    open spec fn view(&self) -> StartBodyV {
        StartBodyV {
            bin_path: self.bin_path@,
            args: self.args.deep_view(),
            log_file: self.log_file@,
        }
    }
}

impl Clone for StartBody {
    fn clone(&self) -> (r: Self)
        ensures
            r@ == self@,
    {
        let mut args: Vec<String> = Vec::new();
        let mut i: usize = 0;
        while i < self.args.len()
            invariant
                i <= self.args@.len(),
                args.deep_view() =~= self.args.deep_view().take(i as int),
            decreases self.args@.len() - i,
        {
            let ghost prev = args.deep_view();
            let a = &self.args[i];
            args.push(a.clone());
            proof {
                assert(args.deep_view() =~= prev.push(self.args@[i as int]@));
                assert(args.deep_view() =~= self.args.deep_view().take(i + 1));
            }
            i = i + 1;
        }
        let r = StartBody {
            bin_path: self.bin_path.clone(),
            args,
            log_file: self.log_file.clone(),
        };
        assert(r@.args =~= self@.args);
        r
    }
}

/// A request to override the DNS servers with the given value.
pub struct DnsBody {
    pub dns: String,
}

impl View for DnsBody {
    type V = Seq<char>;

    open spec fn view(&self) -> Seq<char> {
        self.dns@
    }
}

/// Mathematical value of a [`ServerStatus`].
pub ghost struct ServerStatusV {
    pub info: Option<StartBodyV>,
    pub pid: u32,
}

impl ServerStatusV {
    /// A launch specification is recorded exactly while a child process is
    /// tracked, and the stored process identifier is the sentinel `0`
    /// exactly while none is.
    pub open spec fn wf(self) -> bool {
        self.info is None <==> self.pid == 0
    }
}

/// The record of the single supervised child process: the launch
/// specification it was started from, and its process identifier.  The
/// daemon owns one such record for its lifetime, behind a lock.
pub struct ServerStatus {
    pub info: Option<StartBody>,
    pub pid: u32,
}

impl View for ServerStatus {
    type V = ServerStatusV;

    open spec fn view(&self) -> ServerStatusV {
        ServerStatusV {
            info: match self.info {
                Some(b) => Some(b@),
                None => None,
            },
            pid: self.pid,
        }
    }
}

impl Default for ServerStatus {
    /// The daemon starts with nothing tracked.
    fn default() -> (r: Self)
        ensures
            r@.info is None,
            r@.pid == 0,
            r@.wf(),
    {
        ServerStatus { info: None, pid: 0 }
    }
}

/// The record of a pending DNS override: the DNS server list captured
/// before the first override, present exactly while an override is active.
pub struct DNSStatus {
    pub dns: Option<String>,
}

impl View for DNSStatus {
    type V = Option<Seq<char>>;

    open spec fn view(&self) -> Option<Seq<char>> {
        match self.dns {
            Some(d) => Some(d@),
            None => None,
        }
    }
}

impl Default for DNSStatus {
    /// The daemon starts with no override active.
    fn default() -> (r: Self)
        ensures
            r@ is None,
    {
        DNSStatus { dns: None }
    }
}

/// The error kinds a handler can report.
#[derive(Debug)]
pub enum ServiceError {
    /// A file or an invoked OS utility could not be used; carries the
    /// underlying message.
    Io(String),
    /// The executable could not be launched; carries the underlying message.
    Spawn(String),
    /// `info` was asked with no process tracked.
    NotRunning,
    /// No network service could be resolved at all.
    NoNetworkService,
    /// An invoked OS utility produced unusable output; carries the message.
    ExternalCommand(String),
}

impl ServiceError {
    /// The human-readable text carried into the failure envelope.
    pub open spec fn msg_view(&self) -> Seq<char> {
        match self {
            ServiceError::Io(m) => m@,
            ServiceError::Spawn(m) => m@,
            ServiceError::NotRunning => "server not executed"@,
            ServiceError::NoNetworkService => "No network service found"@,
            ServiceError::ExternalCommand(m) => m@,
        }
    }

    /// Renders the error as its message text.
    pub fn msg(&self) -> (r: String)
        ensures
            r@ == self.msg_view(),
    {
        match self {
            ServiceError::Io(m) => m.clone(),
            ServiceError::Spawn(m) => m.clone(),
            ServiceError::NotRunning => "server not executed".to_owned(),
            ServiceError::NoNetworkService => "No network service found".to_owned(),
            ServiceError::ExternalCommand(m) => m.clone(),
        }
    }
}

/// The name and build version reported by the version route.
pub struct VersionInfo {
    pub service: String,
    pub version: String,
}

/// The payload a successful handler can attach to its response.
pub enum Payload {
    Version(VersionInfo),
    Spec(StartBody),
}

/// The uniform response envelope: `code` 0 with message `"ok"` on success,
/// `code` 400 with the error's text on failure, and an optional payload.
pub struct JsonResponse {
    pub code: u64,
    pub msg: String,
    pub data: Option<Payload>,
}

} // verus!
