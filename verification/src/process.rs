//! The process controller: records the single supervised child process,
//! stops it by a re-derived PID-and-name match, and reports its launch
//! specification.

use vstd::prelude::*;
use vstd::seq_lib::group_seq_properties;

use sysinfo::{PidExt, ProcessExt, SystemExt};

use crate::data::{ServerStatus, ServerStatusV, ServiceError, StartBody, StartBodyV};
use crate::netsvc::opt_str_view;

verus! {

#[verifier::external_type_specification]
#[verifier::external_body]
/// The process-table snapshot type of the `sysinfo` crate, opaque here.
pub struct ExSystem(sysinfo::System);

/// Relies on `sysinfo::SystemExt::new_with_specifics`: a fresh snapshot of
/// the machine's process table.
#[verifier::external_body]
fn process_snapshot() -> (r: sysinfo::System) {
    sysinfo::System::new_with_specifics(
        sysinfo::RefreshKind::new().with_processes(sysinfo::ProcessRefreshKind::everything()),
    )
}

/// Relies on `sysinfo::SystemExt::processes_by_name`: the identifiers of
/// the snapshot's processes whose name contains `name`.  What the machine
/// is running decides the outcome, so nothing is promised of it.
#[verifier::external_body]
fn pids_matching_name(sys: &sysinfo::System, name: &str) -> (r: Vec<u32>) {
    sys.processes_by_name(name).map(|p| p.pid().as_u32()).collect()
}

/// Relies on `sysinfo::ProcessExt::kill`: sends the kill signal to the
/// snapshot's process with identifier `pid`, if there is one, and reports
/// whether a signal was sent.
#[verifier::external_body]
fn kill_by_pid(sys: &sysinfo::System, pid: u32) -> (r: bool) {
    match sys.process(sysinfo::Pid::from_u32(pid)) {
        Some(p) => p.kill(),
        None => false,
    }
}

/// Position of the last occurrence of `c` before position `j`, if any.
pub open spec fn last_pos(s: Seq<char>, c: char, j: int) -> Option<int>
    decreases j,
    when 0 <= j <= s.len()
{
    if j > 0 {
        if s[j - 1] == c {
            Some(j - 1)
        } else {
            last_pos(s, c, j - 1)
        }
    } else {
        None
    }
}

/// Position right after the last path separator — `/` or, for paths
/// written the Windows way, `\` — or the start of the path.
pub open spec fn file_name_start(path: Seq<char>) -> int {
    let a: int = match last_pos(path, '/', path.len() as int) {
        Some(i) => i + 1,
        None => 0,
    };
    let b: int = match last_pos(path, '\\', path.len() as int) {
        Some(i) => i + 1,
        None => 0,
    };
    if a >= b {
        a
    } else {
        b
    }
}

/// The base name of `path`: everything after the last path separator,
/// with a trailing extension stripped unless the name starts with the dot.
/// Empty names (a path ending in a separator, or an empty path) have no
/// stem.
pub open spec fn spec_file_stem(path: Seq<char>) -> Option<Seq<char>> {
    let start = file_name_start(path);
    let name = path.skip(start);
    if name.len() == 0 {
        None
    } else {
        match last_pos(name, '.', name.len() as int) {
            Some(d) => if d > 0 {
                Some(name.take(d))
            } else {
                Some(name)
            },
            None => Some(name),
        }
    }
}

/// Position of the last occurrence of `c` in `s`.
pub fn last_char_pos(s: &str, c: char) -> (r: Option<usize>)
    ensures
        match r {
            Some(i) => i < s@.len() && last_pos(s@, c, s@.len() as int) == Some(i as int),
            None => last_pos(s@, c, s@.len() as int) is None,
        },
{
    let len = s.unicode_len();
    let mut j: usize = len;
    while j > 0
        invariant
            len == s@.len(),
            j <= len,
            last_pos(s@, c, len as int) == last_pos(s@, c, j as int),
        decreases j,
    {
        if s.get_char(j - 1) == c {
            return Some(j - 1);
        }
        j = j - 1;
    }
    None
}

/// The executable base name used to re-derive kill candidates.
pub fn file_stem(path: &str) -> (r: Option<String>)
    ensures
        opt_str_view(r) == spec_file_stem(path@),
{
    let len = path.unicode_len();
    let a: usize = match last_char_pos(path, '/') {
        Some(i) => i + 1,
        None => 0,
    };
    let b: usize = match last_char_pos(path, '\\') {
        Some(i) => i + 1,
        None => 0,
    };
    let start: usize = if a >= b {
        a
    } else {
        b
    };
    assert(start as int == file_name_start(path@));
    let name = path.substring_char(start, len);
    assert(name@ =~= path@.skip(start as int));
    let namelen = name.unicode_len();
    if namelen == 0 {
        return None;
    }
    match last_char_pos(name, '.') {
        Some(d) => {
            if d > 0 {
                let stem = name.substring_char(0, d);
                assert(stem@ =~= name@.take(d as int));
                Some(stem.to_owned())
            } else {
                Some(name.to_owned())
            }
        },
        None => Some(name.to_owned()),
    }
}

/// The identifiers among `cands` that equal the tracked identifier `pid`.
pub open spec fn kill_set(cands: Seq<u32>, pid: u32) -> Seq<u32> {
    cands.filter(|p: u32| p == pid)
}

/// Selects from the name-matched candidates exactly the ones whose
/// identifier equals the tracked identifier — the defence against killing
/// an unrelated process that inherited a recycled name or identifier.
pub fn kill_candidates(cands: &Vec<u32>, pid: u32) -> (r: Vec<u32>)
    ensures
        r@ == kill_set(cands@, pid),
{
    broadcast use group_seq_properties;

    let mut r: Vec<u32> = Vec::new();
    let mut i: usize = 0;
    proof {
        reveal(Seq::filter);
        assert(cands@.take(0int) =~= Seq::<u32>::empty());
        assert(r@ =~= kill_set(cands@.take(0int), pid));
    }
    while i < cands.len()
        invariant
            i <= cands@.len(),
            r@ == kill_set(cands@.take(i as int), pid),
        decreases cands@.len() - i,
    {
        proof {
            reveal(Seq::filter);
            assert(cands@.take(i + 1).drop_last() =~= cands@.take(i as int));
            assert(cands@.take(i + 1).last() == cands@[i as int]);
        }
        let c = cands[i];
        if c == pid {
            r.push(c);
        }
        assert(r@ =~= kill_set(cands@.take(i + 1), pid));
        i = i + 1;
    }
    assert(cands@.take(i as int) =~= cands@);
    r
}

/// The state recorded by a successful start: the new launch specification
/// and the identifier of the process spawned for it.
pub open spec fn started(body: StartBodyV, pid: u32) -> ServerStatusV {
    ServerStatusV { info: Some(body), pid: pid }
}

/// The state left by a stop: nothing tracked.
pub open spec fn cleared() -> ServerStatusV {
    ServerStatusV { info: None, pid: 0 }
}

/// Records a freshly spawned child process, replacing any previous record.
/// The surrounding process spawns the child (after stopping the previous
/// one) and hands its identifier in; a real identifier is never the
/// sentinel `0`.
pub fn record_start(status: &mut ServerStatus, body: StartBody, pid: u32)
    requires
        pid != 0,
    ensures
        final(status)@ == started(body@, pid),
        final(status)@.wf(),
{
    status.info = Some(body);
    status.pid = pid;
}

/// Stops the tracked child process, if any: re-derives the candidate set
/// by executable base name from a fresh process-table snapshot, kills only
/// the candidate whose identifier exactly equals the tracked one, and
/// always clears the record.  Never fails: stopping with nothing tracked,
/// or with the process already gone, is a success.
pub fn stop(status: &mut ServerStatus) -> (r: Result<(), ServiceError>)
    ensures
        r is Ok,
        final(status)@ == cleared(),
        final(status)@.wf(),
{
    if status.info.is_none() {
        status.pid = 0;
        return Ok(());
    }
    let bin_path = match &status.info {
        Some(b) => b.bin_path.as_str(),
        None => unreached(),
    };
    let stem = file_stem(bin_path);
    match stem {
        Some(name) => {
            let sys = process_snapshot();
            let cands = pids_matching_name(&sys, name.as_str());
            let targets = kill_candidates(&cands, status.pid);
            let mut t: usize = 0;
            while t < targets.len()
                decreases targets@.len() - t,
            {
                let _ = kill_by_pid(&sys, targets[t]);
                t = t + 1;
            }
        },
        None => {
            // A path with no base name matches no process; there is
            // nothing to kill.
        },
    }
    status.info = None;
    status.pid = 0;
    Ok(())
}

/// Reports the launch specification of the tracked child process, and
/// fails exactly when nothing is tracked.
pub fn info(status: &ServerStatus) -> (r: Result<StartBody, ServiceError>)
    ensures
        match status@.info {
            Some(b) => r is Ok && r->Ok_0@ == b,
            None => r is Err && r->Err_0 is NotRunning,
        },
{
    match &status.info {
        Some(b) => Ok(b.clone()),
        None => Err(ServiceError::NotRunning),
    }
}

/// Starting `a` and then `b` leaves `b`'s specification as the one that
/// `info` reports, and the stop performed while starting `b` targets
/// exactly `a`'s process among the name-matched candidates.
pub proof fn lemma_start_replaces(a: StartBodyV, b: StartBodyV, pa: u32, pb: u32, cands: Seq<u32>)
    requires
        pa != 0,
        pb != 0,
        cands.contains(pa),
    ensures
        started(b, pb).info == Some(b),
        kill_set(cands, started(a, pa).pid).contains(pa),
{
    broadcast use group_seq_properties;

    let i = choose|i: int| 0 <= i < cands.len() && cands[i] == pa;
    let pred = |p: u32| p == pa;
    assert(pred(cands[i]));
    cands.lemma_filter_contains(pred, i);
}

} // verus!
