//! Resolution of the network service that owns the interface currently
//! used for outbound traffic, and the parser for the system's ordered
//! network-service listing.
//!
//! The listing is textual: one header line, then repeating two-line
//! groups — a `(<index>) <ServiceName>` line followed by a parenthesized
//! detail line holding `Port: <port>, Device: <device>`.  A service with a
//! malformed or missing detail line is skipped, never fatal.

use vstd::prelude::*;

use crate::data::ServiceError;
use crate::text::{
    eq_str, find_sub, spec_find, spec_split_lines, spec_trim, split_lines, trim_str,
    lemma_find_at, lemma_split_lines_len,
};

verus! {

/// Mathematical value of a [`NetworkServiceEntry`].
pub ghost struct EntryV {
    pub service: Seq<char>,
    pub port: Seq<char>,
    pub device: Seq<char>,
}

/// One parsed entry of the ordered network-service listing: the logical
/// service name, its hardware port, and the device it is bound to.
pub struct NetworkServiceEntry {
    pub service: String,
    pub port: String,
    pub device: String,
}

impl View for NetworkServiceEntry {
    type V = EntryV;

    open spec fn view(&self) -> EntryV {
        EntryV { service: self.service@, port: self.port@, device: self.device@ }
    }
}

impl DeepView for NetworkServiceEntry {
    type V = EntryV;

    open spec fn deep_view(&self) -> EntryV {
        self.view()
    }
}

/// View of a pending service name while its detail line is awaited.
pub open spec fn opt_str_view(p: Option<String>) -> Option<Seq<char>> {
    match p {
        Some(s) => Some(s@),
        None => None,
    }
}

/// Reads a `(<index>) <ServiceName>` line: the trimmed text after the
/// first `)`, provided it is not empty.
pub open spec fn spec_name_line(l: Seq<char>) -> Option<Seq<char>> {
    match spec_find(l, ")"@) {
        None => None,
        Some(ri) => {
            let name = spec_trim(l.skip(ri + ")"@.len()));
            if name.len() > 0 {
                Some(name)
            } else {
                None
            }
        },
    }
}

/// Reads a parenthesized detail line: the trimmed slices between `Port:`
/// and `, Device:` and after `, Device:`, provided both markers are there
/// in that order.
pub open spec fn spec_detail_parts(l: Seq<char>) -> Option<(Seq<char>, Seq<char>)> {
    if l.len() < 2 {
        None
    } else {
        let inner = l.subrange(1, l.len() - 1);
        let pi_o = spec_find(inner, "Port:"@);
        let di_o = spec_find(inner, ", Device:"@);
        if pi_o is Some && di_o is Some && pi_o->Some_0 + "Port:"@.len() <= di_o->Some_0 {
            Some(
                (
                    spec_trim(inner.subrange(pi_o->Some_0 + "Port:"@.len(), di_o->Some_0)),
                    spec_trim(inner.skip(di_o->Some_0 + ", Device:"@.len())),
                ),
            )
        } else {
            None
        }
    }
}

/// The entries produced by folding the listing's lines.  A line that does
/// not open with `(` disturbs nothing.  With no service name pending, a
/// line is read as a name line.  With one pending, a line holding both
/// detail markers completes an entry; any other parenthesized line means
/// the pending service's detail was malformed, so that service is dropped
/// — it contributes nothing and cannot take a later group's detail — and
/// the line is read as a fresh name line.
pub open spec fn run_parse(lines: Seq<Seq<char>>, pending: Option<Seq<char>>) -> Seq<EntryV>
    decreases lines.len(),
{
    if lines.len() == 0 {
        Seq::empty()
    } else {
        let l = lines[0];
        let rest = lines.skip(1);
        if l.len() == 0 || l[0] != '(' {
            run_parse(rest, pending)
        } else if pending is None {
            run_parse(rest, spec_name_line(l))
        } else {
            match spec_detail_parts(l) {
                Some(parts) => seq![
                    EntryV { service: pending->Some_0, port: parts.0, device: parts.1 },
                ] + run_parse(rest, None),
                None => run_parse(rest, spec_name_line(l)),
            }
        }
    }
}

/// Reads one listing line as a name line.
fn parse_name_line(line: &str) -> (r: Option<String>)
    ensures
        opt_str_view(r) == spec_name_line(line@),
{
    let rlab = ")";
    let rlen = rlab.unicode_len();
    match find_sub(line, rlab) {
        None => None,
        Some(ri) => {
            proof {
                lemma_find_at(line@, rlab@, 0);
            }
            let linelen = line.unicode_len();
            let tail = line.substring_char(ri + rlen, linelen);
            assert(tail@ =~= line@.skip(ri + ")"@.len()));
            let name = trim_str(tail);
            if name.as_str().is_empty() {
                None
            } else {
                Some(name)
            }
        },
    }
}

/// Reads one listing line as a detail line.
fn parse_detail_line(line: &str) -> (r: Option<(String, String)>)
    ensures
        match r {
            Some(parts) => spec_detail_parts(line@) == Some((parts.0@, parts.1@)),
            None => spec_detail_parts(line@) is None,
        },
{
    let linelen = line.unicode_len();
    if linelen < 2 {
        return None;
    }
    let inner = line.substring_char(1, linelen - 1);
    assert(inner@ == line@.subrange(1, line@.len() - 1));
    let plab = "Port:";
    let plen = plab.unicode_len();
    let dlab = ", Device:";
    let dlen = dlab.unicode_len();
    match (find_sub(inner, plab), find_sub(inner, dlab)) {
        (Some(pi), Some(di)) if pi <= di && plen <= di - pi => {
            proof {
                lemma_find_at(inner@, plab@, 0);
                lemma_find_at(inner@, dlab@, 0);
            }
            let innerlen = inner.unicode_len();
            let port = trim_str(inner.substring_char(pi + plen, di));
            let device = trim_str(inner.substring_char(di + dlen, innerlen));
            Some((port, device))
        },
        _ => None,
    }
}

/// Parses the ordered network-service listing, skipping its header line.
pub fn listnetworkserviceorder(stdout: &str) -> (r: Vec<NetworkServiceEntry>)
    ensures
        r.deep_view() == run_parse(spec_split_lines(stdout@).skip(1), None),
{
    let lines = split_lines(stdout);
    let ghost lv = spec_split_lines(stdout@);
    proof {
        lemma_split_lines_len(stdout@);
    }
    let mut services: Vec<NetworkServiceEntry> = Vec::new();
    let mut p: Option<String> = None;
    let mut i: usize = 1;
    assert(services.deep_view() + run_parse(lv.skip(1), opt_str_view(p))
        =~= run_parse(lv.skip(1), None));
    while i < lines.len()
        invariant
            lines.deep_view() == lv,
            1 <= i <= lines@.len(),
            lines@.len() == lv.len(),
            services.deep_view() + run_parse(lv.skip(i as int), opt_str_view(p))
                =~= run_parse(lv.skip(1), None),
        decreases lines@.len() - i,
    {
        let ghost pv = opt_str_view(p);
        let ghost seg = lv.skip(i as int);
        proof {
            assert(lines@[i as int].deep_view() == lv[i as int]);
            assert(seg[0] == lv[i as int]);
            assert(seg.skip(1) =~= lv.skip(i + 1));
        }
        let line: &str = lines[i].as_str();
        assert(line@ == lv[i as int]);
        let linelen = line.unicode_len();
        if linelen == 0 || line.get_char(0) != '(' {
            assert(run_parse(seg, pv) == run_parse(lv.skip(i + 1), pv));
        } else if p.is_none() {
            p = parse_name_line(line);
            assert(run_parse(seg, pv) == run_parse(lv.skip(i + 1), opt_str_view(p)));
        } else {
            match parse_detail_line(line) {
                Some(parts) => {
                    let svc = match p {
                        Some(s) => s,
                        None => unreached(),
                    };
                    p = None;
                    let entry = NetworkServiceEntry {
                        service: svc,
                        port: parts.0,
                        device: parts.1,
                    };
                    let ghost entry_v = entry@;
                    let ghost prev = services.deep_view();
                    services.push(entry);
                    proof {
                        assert(services.deep_view() =~= prev.push(entry_v));
                        assert(run_parse(seg, pv) == seq![entry_v] + run_parse(
                            lv.skip(i + 1),
                            None,
                        ));
                        assert(prev + run_parse(seg, pv) =~= services.deep_view() + run_parse(
                            lv.skip(i + 1),
                            opt_str_view(p),
                        ));
                    }
                },
                None => {
                    p = parse_name_line(line);
                    assert(run_parse(seg, pv) == run_parse(lv.skip(i + 1), opt_str_view(p)));
                },
            }
        }
        i = i + 1;
    }
    proof {
        assert(lv.skip(i as int) =~= Seq::<Seq<char>>::empty());
        assert(run_parse(lv.skip(i as int), opt_str_view(p)) =~= Seq::<EntryV>::empty());
        assert(services.deep_view() =~= run_parse(lv.skip(1), None));
    }
    services
}

/// The service name of the first entry bound to `device`, if any.
pub open spec fn first_service_for_device(entries: Seq<EntryV>, device: Seq<char>) -> Option<
    Seq<char>,
>
    decreases entries.len(),
{
    if entries.len() == 0 {
        None
    } else if entries[0].device == device {
        Some(entries[0].service)
    } else {
        first_service_for_device(entries.skip(1), device)
    }
}

/// The parsed entries of an ordered-service listing.
pub open spec fn parsed_order(listing: Seq<char>) -> Seq<EntryV> {
    run_parse(spec_split_lines(listing).skip(1), None)
}

/// Looks the owning service of `device` up in the ordered-service listing.
/// `order_output` is the listing command's output, absent when the command
/// itself failed.
pub fn get_server_by_order(order_output: &Option<String>, device: &str) -> (r: Result<
    String,
    ServiceError,
>)
    ensures
        match r {
            Ok(s) => order_output is Some && first_service_for_device(
                parsed_order(order_output->Some_0@),
                device@,
            ) == Some(s@),
            Err(e) => match order_output {
                Some(t) => e is NoNetworkService && first_service_for_device(
                    parsed_order(t@),
                    device@,
                ) is None,
                None => e is ExternalCommand,
            },
        },
{
    let text = match order_output {
        Some(t) => t,
        None => {
            return Err(ServiceError::ExternalCommand(
                "failed to list the network service order".to_owned(),
            ));
        },
    };
    let services = listnetworkserviceorder(text.as_str());
    let ghost entries = parsed_order(text@);
    let mut k: usize = 0;
    assert(entries.skip(0) =~= entries);
    while k < services.len()
        invariant
            order_output is Some,
            entries == parsed_order(order_output->Some_0@),
            services.deep_view() == entries,
            k <= services@.len(),
            services@.len() == entries.len(),
            first_service_for_device(entries, device@) == first_service_for_device(
                entries.skip(k as int),
                device@,
            ),
        decreases services@.len() - k,
    {
        proof {
            assert(services@[k as int].deep_view() == entries[k as int]);
            assert(entries.skip(k as int)[0] == entries[k as int]);
            assert(entries.skip(k as int).skip(1) =~= entries.skip(k + 1));
        }
        if eq_str(services[k].device.as_str(), device) {
            proof {
                assert(entries[k as int].device == device@);
                assert(first_service_for_device(entries.skip(k as int), device@) == Some(
                    entries[k as int].service,
                ));
            }
            let s = services[k].service.clone();
            assert(s@ == entries[k as int].service);
            return Ok(s);
        }
        k = k + 1;
    }
    assert(entries.skip(k as int) =~= Seq::<EntryV>::empty());
    Err(ServiceError::NoNetworkService)
}

/// True when the plain service listing actually lists a service: a
/// non-blank line follows the header.  A listing holding only its header
/// (and perhaps a trailing newline) is the empty list.
pub open spec fn spec_fallback_ok(listing: Seq<char>) -> bool {
    spec_split_lines(listing).len() >= 2 && spec_trim(spec_split_lines(listing)[1]).len() > 0
}

/// Falls back to the plain service listing: its first line is a notice and
/// is skipped, and the next line names the first service in system order.
/// An empty service list — nothing, or only blank text, after the header
/// — is the no-network-service error.  `listing` is the listing command's
/// output, absent when the command itself failed.
pub fn default_network_service_by_ns(listing: &Option<String>) -> (r: Result<String, ServiceError>)
    ensures
        match r {
            Ok(s) => listing is Some && spec_fallback_ok(listing->Some_0@) && s@
                == spec_split_lines(listing->Some_0@)[1],
            Err(e) => match listing {
                Some(t) => e is NoNetworkService && !spec_fallback_ok(t@),
                None => e is ExternalCommand,
            },
        },
{
    let text = match listing {
        Some(t) => t,
        None => {
            return Err(ServiceError::ExternalCommand(
                "failed to list the network services".to_owned(),
            ));
        },
    };
    let lines = split_lines(text.as_str());
    if lines.len() >= 2 {
        let second = lines[1].as_str();
        assert(second@ == spec_split_lines(text@)[1]);
        let trimmed = trim_str(second);
        if trimmed.as_str().is_empty() {
            return Err(ServiceError::NoNetworkService);
        }
        let s = lines[1].clone();
        assert(s@ == spec_split_lines(text@)[1]);
        Ok(s)
    } else {
        Err(ServiceError::NoNetworkService)
    }
}

/// Mathematical value of an [`InterfaceEntry`].
pub ghost struct InterfaceEntryV {
    pub name: Seq<char>,
    pub addrs: Seq<Seq<char>>,
}

/// One system network interface: its name and the textual forms of the
/// socket addresses assigned to it.
pub struct InterfaceEntry {
    pub name: String,
    pub addrs: Vec<String>,
}

impl View for InterfaceEntry {
    type V = InterfaceEntryV;

    open spec fn view(&self) -> InterfaceEntryV {
        InterfaceEntryV { name: self.name@, addrs: self.addrs.deep_view() }
    }
}

impl DeepView for InterfaceEntry {
    type V = InterfaceEntryV;

    open spec fn deep_view(&self) -> InterfaceEntryV {
        self.view()
    }
}

/// The name of the first interface holding `addr`, if any.
pub open spec fn first_interface_for_addr(ifs: Seq<InterfaceEntryV>, addr: Seq<char>) -> Option<
    Seq<char>,
>
    decreases ifs.len(),
{
    if ifs.len() == 0 {
        None
    } else if ifs[0].addrs.contains(addr) {
        Some(ifs[0].name)
    } else {
        first_interface_for_addr(ifs.skip(1), addr)
    }
}

/// Finds the first interface one of whose addresses equals `addr`.
pub fn find_interface_for_addr(ifs: &Vec<InterfaceEntry>, addr: &str) -> (r: Option<String>)
    ensures
        opt_str_view(r) == first_interface_for_addr(ifs.deep_view(), addr@),
{
    let ghost iv = ifs.deep_view();
    let mut k: usize = 0;
    assert(iv.skip(0) =~= iv);
    while k < ifs.len()
        invariant
            ifs.deep_view() == iv,
            k <= ifs@.len(),
            ifs@.len() == iv.len(),
            first_interface_for_addr(iv, addr@) == first_interface_for_addr(
                iv.skip(k as int),
                addr@,
            ),
        decreases ifs@.len() - k,
    {
        proof {
            assert(ifs@[k as int].deep_view() == iv[k as int]);
            assert(iv.skip(k as int)[0] == iv[k as int]);
            assert(iv.skip(k as int).skip(1) =~= iv.skip(k + 1));
        }
        let entry = &ifs[k];
        let mut j: usize = 0;
        let mut found = false;
        while j < entry.addrs.len()
            invariant
                entry.deep_view() == iv[k as int],
                0 <= k < iv.len(),
                j <= entry.addrs@.len(),
                entry.addrs@.len() == iv[k as int].addrs.len(),
                found ==> iv[k as int].addrs.contains(addr@),
                !found ==> forall|t: int| 0 <= t < j ==> iv[k as int].addrs[t] != addr@,
            decreases entry.addrs@.len() - j,
        {
            proof {
                assert(entry.addrs@[j as int]@ == iv[k as int].addrs[j as int]);
            }
            if !found && eq_str(entry.addrs[j].as_str(), addr) {
                found = true;
            }
            j = j + 1;
        }
        if found {
            let name = entry.name.clone();
            return Some(name);
        }
        assert(!iv[k as int].addrs.contains(addr@));
        k = k + 1;
    }
    assert(iv.skip(k as int) =~= Seq::<InterfaceEntryV>::empty());
    None
}

/// Relies on `interfaces::Interface::get_all`: every system network
/// interface, by name, with the socket addresses assigned to it, each
/// rendered in its canonical textual form.  The result depends on the
/// machine's current configuration, so nothing more is promised of it; an
/// enumeration failure yields no interfaces.
#[verifier::external_body]
fn system_interfaces() -> (r: Vec<InterfaceEntry>) {
    match interfaces::Interface::get_all() {
        Ok(ifs) => ifs
            .into_iter()
            .map(|i| InterfaceEntry {
                name: i.name.clone(),
                addrs: i.addresses.iter().filter_map(|a| a.addr.map(|s| format!("{}", s))).collect(),
            })
            .collect(),
        Err(_) => Vec::new(),
    }
}

/// What the surrounding process gathered for one service-resolution
/// attempt: the local address bound when connecting a datagram socket
/// toward a well-known external host, and the raw outputs of the two
/// service-listing commands.  Each is absent when the step that produces
/// it failed.
pub struct NetEnv {
    pub local_addr: Option<String>,
    pub order_output: Option<String>,
    pub services_output: Option<String>,
}

/// Resolves the network service backing the interface that owns the local
/// outbound address.  The interfaces themselves are read from the machine,
/// so success cannot be promised; whatever is returned was found in the
/// ordered-service listing, the address-resolution error comes exactly
/// when no address was handed in, and every other failure is either the
/// no-service error or, only with the order listing missing, the external
/// command error.
pub fn default_network_service(local_addr: &Option<String>, order_output: &Option<String>) -> (r:
    Result<String, ServiceError>)
    ensures
        (r is Err && r->Err_0 is Io) <==> local_addr is None,
        r is Err ==> local_addr is None || r->Err_0 is NoNetworkService || (order_output is None
            && r->Err_0 is ExternalCommand),
        r is Ok ==> order_output is Some && exists|dev: Seq<char>|
            first_service_for_device(parsed_order(order_output->Some_0@), dev) == Some(
                r->Ok_0@,
            ),
{
    let addr = match local_addr {
        Some(a) => a,
        None => {
            return Err(ServiceError::Io("failed to resolve the outbound address".to_owned()));
        },
    };
    let ifs = system_interfaces();
    match find_interface_for_addr(&ifs, addr.as_str()) {
        Some(device) => {
            let r = get_server_by_order(order_output, device.as_str());
            proof {
                if r is Ok {
                    let dev = device@;
                    assert(first_service_for_device(
                        parsed_order(order_output->Some_0@),
                        dev,
                    ) == Some(r->Ok_0@));
                }
            }
            r
        },
        None => Err(ServiceError::NoNetworkService),
    }
}

/// Resolves the default network service: first by the outbound-interface
/// match, then, if that fails in any way, by the first entry of the plain
/// service listing.  Fails exactly when the fallback listing fails too;
/// in particular, with no outbound address the outcome is exactly the
/// fallback's, so an empty fallback list then forces the error.
pub fn resolve_service(env: &NetEnv) -> (r: Result<String, ServiceError>)
    ensures
        match r {
            Ok(s) => (env.order_output is Some && exists|dev: Seq<char>|
                first_service_for_device(parsed_order(env.order_output->Some_0@), dev) == Some(
                    s@,
                )) || (env.services_output is Some && spec_fallback_ok(
                env.services_output->Some_0@,
            ) && s@ == spec_split_lines(env.services_output->Some_0@)[1]),
            Err(e) => match env.services_output {
                Some(t) => e is NoNetworkService && !spec_fallback_ok(t@),
                None => e is ExternalCommand,
            },
        },
        env.local_addr is None ==> (r is Ok <==> (env.services_output is Some
            && spec_fallback_ok(env.services_output->Some_0@))),
        env.local_addr is None && r is Ok ==> r->Ok_0@ == spec_split_lines(
            env.services_output->Some_0@,
        )[1],
{
    match default_network_service(&env.local_addr, &env.order_output) {
        Ok(s) => Ok(s),
        Err(_) => default_network_service_by_ns(&env.services_output),
    }
}

} // verus!
