//! The DNS override manager: saves a service's DNS servers once, before
//! the first override, and can later restore them.  The manager decides;
//! the surrounding process runs the per-service query and set commands and
//! hands their outputs in.

use vstd::prelude::*;

use crate::data::{DNSStatus, DnsBody, ServiceError};
use crate::text::{
    replace_newlines, spec_replace_newlines, spec_starts_with, spec_trim, starts_with, trim_str,
};

verus! {

/// What the DNS query tool prints when a service has no servers
/// configured.
pub open spec fn no_dns_notice() -> Seq<char> {
    "There aren't any DNS Servers set on"@
}

/// The sentinel stored in place of that notice.
pub open spec fn empty_sentinel() -> Seq<char> {
    "Empty"@
}

/// The saved form of a raw DNS query output: trimmed, inner newlines
/// replaced by spaces, and the "no servers configured" notice replaced by
/// the sentinel `Empty`.
pub open spec fn spec_normalize_dns(raw: Seq<char>) -> Seq<char> {
    let flat = spec_replace_newlines(spec_trim(raw));
    if spec_starts_with(spec_trim(flat), no_dns_notice()) {
        empty_sentinel()
    } else {
        flat
    }
}

/// Normalizes the DNS query tool's output for saving.
pub fn normalize_dns_output(raw: &str) -> (r: String)
    ensures
        r@ == spec_normalize_dns(raw@),
{
    let trimmed = trim_str(raw);
    let flat = replace_newlines(trimmed.as_str());
    let check = trim_str(flat.as_str());
    if starts_with(check.as_str(), "There aren't any DNS Servers set on") {
        "Empty".to_owned()
    } else {
        flat
    }
}

/// The saved original after an override request whose query returned
/// `raw`: the first save wins, later ones never overwrite it.
pub open spec fn after_set(saved: Option<Seq<char>>, raw: Seq<char>) -> Option<Seq<char>> {
    if saved is Some {
        saved
    } else {
        Some(spec_normalize_dns(raw))
    }
}

/// True when a pending save obliges `unset_dns` to restore.
pub open spec fn restore_needed(saved: Option<Seq<char>>) -> bool {
    saved is Some && saved->Some_0.len() > 0
}

/// A pending invocation of the per-service DNS set command, for the
/// surrounding process to run.
pub struct SetDnsCmd {
    pub service: String,
    pub servers: String,
}

/// Applies a DNS override to `service`.  If no original is saved yet, the
/// query output is normalized and saved first — exactly once: a second
/// override never overwrites a pending save.  Returns the set command to
/// run; fails only when a save is needed and the query output is missing.
///
/// `query_output` is the raw output of the DNS query command for
/// `service`, absent when that command failed.
pub fn set_dns(
    status: &mut DNSStatus,
    body: &DnsBody,
    service: String,
    query_output: Option<String>,
) -> (r: Result<SetDnsCmd, ServiceError>)
    ensures
        match r {
            Ok(cmd) => {
                &&& cmd.service@ == service@
                &&& cmd.servers@ == body@
                &&& (old(status)@ is Some ==> final(status)@ == old(status)@)
                &&& (old(status)@ is None ==> query_output is Some && final(status)@ == after_set(
                    old(status)@,
                    query_output->Some_0@,
                ))
            },
            Err(e) => {
                &&& old(status)@ is None
                &&& query_output is None
                &&& e is Io
                &&& final(status)@ == old(status)@
            },
        },
        r is Ok <==> (old(status)@ is Some || query_output is Some),
{
    if status.dns.is_none() {
        match query_output {
            Some(raw) => {
                status.dns = Some(normalize_dns_output(raw.as_str()));
            },
            None => {
                return Err(
                    ServiceError::Io("failed to read the current DNS servers".to_owned()),
                );
            },
        }
    }
    Ok(SetDnsCmd { service, servers: body.dns.clone() })
}

/// Plans the restore of the saved DNS servers, if an override is pending:
/// returns the set command carrying the saved value (the sentinel `Empty`
/// clears the servers when the tool runs it).  The save itself is left in
/// place: only [`confirm_dns_restored`], called once the command has
/// actually succeeded, forgets it, so a failed restore can be retried.
/// With nothing to restore this succeeds without a command and without
/// touching the resolved service.
///
/// `service` is the outcome of resolving the default network service; its
/// failure matters, and is reported, only when a restore is due.
pub fn unset_dns(status: &DNSStatus, service: Result<String, ServiceError>) -> (r: Result<
    Option<SetDnsCmd>,
    ServiceError,
>)
    ensures
        match r {
            Ok(cmd_opt) => match cmd_opt {
                None => !restore_needed(status@),
                Some(cmd) => {
                    &&& restore_needed(status@)
                    &&& service is Ok
                    &&& cmd.service@ == service->Ok_0@
                    &&& cmd.servers@ == status@->Some_0
                },
            },
            Err(e) => {
                &&& restore_needed(status@)
                &&& service is Err
                &&& e == service->Err_0
            },
        },
{
    let origin = match &status.dns {
        Some(d) => d.clone(),
        None => String::new(),
    };
    if origin.as_str().is_empty() {
        return Ok(None);
    }
    match service {
        Ok(svc) => Ok(Some(SetDnsCmd { service: svc, servers: origin })),
        Err(e) => Err(e),
    }
}

/// Reports whether a restore is due, so the surrounding process resolves
/// the network service — which runs listing commands — only when one is.
pub fn restore_pending(status: &DNSStatus) -> (r: bool)
    ensures
        r == restore_needed(status@),
{
    match &status.dns {
        Some(d) => !d.as_str().is_empty(),
        None => false,
    }
}

/// Acknowledges a successful restore: forgets the saved original, so no
/// later call plans a second restore.  To be called exactly when the
/// command returned by [`unset_dns`] has succeeded.
pub fn confirm_dns_restored(status: &mut DNSStatus)
    ensures
        final(status)@ is None,
        !restore_needed(final(status)@),
{
    status.dns = None;
}

/// Two overrides in a row preserve the original pre-override value: the
/// save made by the first one is what a later restore will use, whatever
/// the second override's query returned.
pub proof fn lemma_save_once(saved: Option<Seq<char>>, x: Seq<char>, y: Seq<char>)
    ensures
        after_set(after_set(saved, x), y) == after_set(saved, x),
{
}

/// An override followed by a restore hands back exactly the value saved
/// before the override, and once the restore is confirmed the state holds
/// nothing to restore, so a second restore is a no-op.  (A query whose
/// normalized output is empty is the one case with nothing to hand back.)
pub proof fn lemma_restore_then_clear(x: Seq<char>)
    requires
        spec_normalize_dns(x).len() > 0,
    ensures
        restore_needed(after_set(None, x)),
        after_set(None, x)->Some_0 == spec_normalize_dns(x),
        !restore_needed(None),
{
}

} // verus!
