//! Host identity: which addresses of the machine are shown, and in what order.
//!
//! The operating system reports two tables. One lists the network adapters with
//! their hardware address and device identifier, the other lists the adapter
//! configurations with their hardware address, whether they are enabled, and
//! their IP addresses. An address is shown when its configuration is enabled and
//! belongs to a physically attached adapter.

use vstd::prelude::*;
use vstd::string::*;
use crate::text::{lemma_lex_less_irreflexive, lemma_lex_less_total, lemma_lex_less_transitive, lex_less, starts_with, text_less};

verus! {

/// One row of the adapter table.
#[derive(Clone, Debug, PartialEq, Eq)]
pub struct AdapterRecord {
    pub mac_address: Option<String>,
    pub pnp_device_id: Option<String>,
}

/// One row of the adapter configuration table.
#[derive(Clone, Debug, PartialEq, Eq)]
pub struct AdapterConfig {
    pub mac_address: Option<String>,
    pub ip_enabled: Option<bool>,
    pub ip_addresses: Option<Vec<String>>,
}

/// The two address lists of a host, each sorted, free of duplicates and never empty.
#[derive(Clone, Debug, PartialEq, Eq)]
pub struct AddressLists {
    pub ip_addresses: Vec<String>,
    pub mac_addresses: Vec<String>,
}

/// What the watermark says about the machine.
#[derive(Clone, Debug, PartialEq, Eq)]
pub struct HostIdentity {
    pub hostname: String,
    pub ip_addresses: Vec<String>,
    pub mac_addresses: Vec<String>,
    pub user_path: String,
}

/// How a host identity was obtained.
#[derive(Clone, Debug, PartialEq, Eq)]
pub enum IdentityReport {
    /// The operating system answered the adapter queries.
    Queried(HostIdentity),
    /// The queries failed; the identity is the best that the environment
    /// gives. Holds the reason of the failure, for a log.
    Fallback(HostIdentity, String),
}

/// What stands in the IP list when no address qualifies.
pub open spec fn ip_placeholder() -> Seq<char> {
    "未发现活跃IP"@
}

/// What stands in the hardware address list when no address qualifies.
pub open spec fn mac_placeholder() -> Seq<char> {
    "未发现活跃MAC"@
}

/// The host name used when the environment has none and the queries succeeded.
pub open spec fn unknown_host() -> Seq<char> {
    "Unknown"@
}

/// The profile directory used when the environment has none.
pub open spec fn default_profile() -> Seq<char> {
    "C:\\"@
}

/// A device identifier names a physical bus when it begins with `PCI` or `USB`.
pub open spec fn is_physical_id(id: Seq<char>) -> bool {
    "PCI"@.is_prefix_of(id) || "USB"@.is_prefix_of(id)
}

/// Link-local IPv6 addresses begin with `fe80`.
pub open spec fn is_link_local(ip: Seq<char>) -> bool {
    "fe80"@.is_prefix_of(ip)
}

impl AdapterRecord {
    /// The row has a hardware address and a device identifier on a physical bus.
    pub open spec fn is_physical(&self) -> bool {
        &&& self.mac_address is Some
        &&& self.pnp_device_id matches Some(id)
        &&& is_physical_id(id@)
    }

    /// The row is physical and carries the hardware address `mac`.
    pub open spec fn is_physical_with(&self, mac: Seq<char>) -> bool {
        self.is_physical() && self.mac_address->0@ == mac
    }
}

/// One of the first `n` adapters is physical and has the hardware address `mac`.
pub open spec fn physical_mac_among(adapters: Seq<AdapterRecord>, n: int, mac: Seq<char>) -> bool {
    exists|i: int| 0 <= i < n && i < adapters.len() && #[trigger] adapters[i].is_physical_with(mac)
}

/// Some adapter is physical and has the hardware address `mac`.
pub open spec fn physical_mac(adapters: Seq<AdapterRecord>, mac: Seq<char>) -> bool {
    physical_mac_among(adapters, adapters.len() as int, mac)
}

/// `ip` is one of the first `n` addresses of `ips` and is not link-local.
pub open spec fn offered_among(ips: Seq<String>, n: int, ip: Seq<char>) -> bool {
    &&& !is_link_local(ip)
    &&& exists|k: int| 0 <= k < n && k < ips.len() && (#[trigger] ips[k])@ == ip
}

impl AdapterConfig {
    /// The configuration is enabled and belongs to a physically attached adapter.
    pub open spec fn qualifies(&self, adapters: Seq<AdapterRecord>) -> bool {
        &&& self.mac_address matches Some(mac)
        &&& physical_mac(adapters, mac@)
        &&& self.ip_enabled == Some(true)
    }

    /// The configuration qualifies and `mac` is its hardware address.
    pub open spec fn shows_mac(&self, adapters: Seq<AdapterRecord>, mac: Seq<char>) -> bool {
        self.qualifies(adapters) && self.mac_address->0@ == mac
    }

    /// The configuration qualifies, and `ip` is one of its addresses and is not
    /// link-local.
    pub open spec fn shows_ip(&self, adapters: Seq<AdapterRecord>, ip: Seq<char>) -> bool {
        &&& self.qualifies(adapters)
        &&& self.ip_addresses matches Some(ips)
        &&& offered_among(ips@, ips@.len() as int, ip)
    }
}

/// One of the first `n` configurations shows the IP address `ip`.
pub open spec fn shown_ip_among(
    adapters: Seq<AdapterRecord>,
    configs: Seq<AdapterConfig>,
    n: int,
    ip: Seq<char>,
) -> bool {
    exists|j: int| 0 <= j < n && j < configs.len() && #[trigger] configs[j].shows_ip(adapters, ip)
}

/// One of the first `n` configurations shows the hardware address `mac`.
pub open spec fn shown_mac_among(
    adapters: Seq<AdapterRecord>,
    configs: Seq<AdapterConfig>,
    n: int,
    mac: Seq<char>,
) -> bool {
    exists|j: int| 0 <= j < n && j < configs.len() && #[trigger] configs[j].shows_mac(adapters, mac)
}

/// `ip` is shown: an enabled configuration of a physical adapter lists it, and
/// it is not link-local.
pub open spec fn shown_ip(adapters: Seq<AdapterRecord>, configs: Seq<AdapterConfig>, ip: Seq<char>) -> bool {
    shown_ip_among(adapters, configs, configs.len() as int, ip)
}

/// `mac` is shown: it is the hardware address of an enabled configuration of a
/// physical adapter.
pub open spec fn shown_mac(adapters: Seq<AdapterRecord>, configs: Seq<AdapterConfig>, mac: Seq<char>) -> bool {
    shown_mac_among(adapters, configs, configs.len() as int, mac)
}

/// Each entry is less than every later one, so none occurs twice.
pub open spec fn strictly_ascending(list: Seq<Seq<char>>) -> bool {
    forall|i: int, j: int| 0 <= i < j < list.len() ==> lex_less(#[trigger] list[i], #[trigger] list[j])
}

/// `list` is the IP list of a host with these tables: the shown addresses, all
/// of them, ascending and once each, or the placeholder alone when none is shown.
pub open spec fn is_ip_list(
    list: Seq<Seq<char>>,
    adapters: Seq<AdapterRecord>,
    configs: Seq<AdapterConfig>,
) -> bool {
    if exists|ip: Seq<char>| shown_ip(adapters, configs, ip) {
        &&& strictly_ascending(list)
        &&& forall|ip: Seq<char>| #[trigger] list.contains(ip) <==> shown_ip(adapters, configs, ip)
    } else {
        list == seq![ip_placeholder()]
    }
}

/// `list` is the hardware address list of a host with these tables: the shown
/// addresses, all of them, ascending and once each, or the placeholder alone
/// when none is shown.
pub open spec fn is_mac_list(
    list: Seq<Seq<char>>,
    adapters: Seq<AdapterRecord>,
    configs: Seq<AdapterConfig>,
) -> bool {
    if exists|mac: Seq<char>| shown_mac(adapters, configs, mac) {
        &&& strictly_ascending(list)
        &&& forall|mac: Seq<char>| #[trigger] list.contains(mac) <==> shown_mac(adapters, configs, mac)
    } else {
        list == seq![mac_placeholder()]
    }
}

/// The profile directory: the one that the environment names, unless it names
/// none or an empty one.
pub open spec fn profile_or_default(env_profile: Option<String>) -> Seq<char> {
    match env_profile {
        Some(dir) => if dir@.len() > 0 {
            dir@
        } else {
            default_profile()
        },
        None => default_profile(),
    }
}

impl HostIdentity {
    /// Both address lists are in display form: not empty, ascending, and so
    /// without duplicates.
    pub open spec fn well_formed(&self) -> bool {
        &&& self.ip_addresses@.len() > 0
        &&& self.mac_addresses@.len() > 0
        &&& strictly_ascending(self.ip_addresses.deep_view())
        &&& strictly_ascending(self.mac_addresses.deep_view())
    }
}

impl IdentityReport {
    /// The identity, however it was obtained.
    pub open spec fn identity(&self) -> HostIdentity {
        match self {
            IdentityReport::Queried(id) => *id,
            IdentityReport::Fallback(id, _) => *id,
        }
    }
}

/// Tells whether a device identifier names a physical bus.
pub fn is_physical_device(id: &str) -> (physical: bool)
    ensures
        physical == is_physical_id(id@),
{
    starts_with(id, "PCI") || starts_with(id, "USB")
}

/// Tells whether an IP address is link-local.
pub fn is_link_local_address(ip: &str) -> (local: bool)
    ensures
        local == is_link_local(ip@),
{
    starts_with(ip, "fe80")
}

/// Tells whether `list` holds the text `s`.
pub fn holds_text(list: &Vec<String>, s: &String) -> (found: bool)
    ensures
        found == list.deep_view().contains(s@),
{
    let mut i: usize = 0;
    while i < list.len()
        invariant
            i <= list.len(),
            forall|k: int| 0 <= k < i ==> list.deep_view()[k] != s@,
        decreases list.len() - i,
    {
        if list[i] == *s {
            proof {
                assert(list.deep_view()[i as int] == s@);
            }
            return true;
        }
        i = i + 1;
    }
    false
}

/// Puts `s` into an ascending list at its place, unless the list holds it already.
pub fn insert_ascending(list: &mut Vec<String>, s: String)
    requires
        strictly_ascending(old(list).deep_view()),
    ensures
        strictly_ascending(final(list).deep_view()),
        forall|t: Seq<char>| #[trigger]
            final(list).deep_view().contains(t) <==> (old(list).deep_view().contains(t) || t == s@),
{
    let ghost before = list.deep_view();
    let mut at: usize = 0;
    while at < list.len() && text_less(list[at].as_str(), s.as_str())
        invariant
            at <= list.len(),
            list.deep_view() == before,
            forall|k: int| 0 <= k < at ==> lex_less(#[trigger] before[k], s@),
        decreases list.len() - at,
    {
        at = at + 1;
    }
    if at < list.len() && list[at] == s {
        proof {
            assert(before[at as int] == s@);
        }
        return ;
    }
    proof {
        // Every entry from `at` on is greater than `s`.
        assert forall|k: int| at <= k < before.len() implies lex_less(s@, #[trigger] before[k]) by {
            lemma_lex_less_total(before[at as int], s@);
            if k > at {
                lemma_lex_less_transitive(s@, before[at as int], before[k]);
            }
        }
    }
    list.insert(at, s);
    proof {
        let after = list.deep_view();
        assert(after =~= before.insert(at as int, s@));
        assert forall|i: int, j: int| 0 <= i < j < after.len() implies lex_less(
            #[trigger] after[i],
            #[trigger] after[j],
        ) by {
            if j < at {
                assert(lex_less(before[i], before[j]));
            } else if j == at {
                assert(lex_less(before[i], s@));
            } else if i < at {
                assert(lex_less(before[i], before[j - 1]));
            } else if i == at {
                assert(lex_less(s@, before[j - 1]));
            } else {
                assert(lex_less(before[i - 1], before[j - 1]));
            }
        }
        assert forall|t: Seq<char>| #[trigger] after.contains(t) <==> (before.contains(t) || t == s@) by {
            if after.contains(t) {
                let i = choose|i: int| 0 <= i < after.len() && after[i] == t;
                if i < at {
                    assert(before[i] == t);
                } else if i > at {
                    assert(before[i - 1] == t);
                }
            }
            if t == s@ {
                assert(after[at as int] == t);
            }
            if before.contains(t) {
                let i = choose|i: int| 0 <= i < before.len() && before[i] == t;
                if i < at {
                    assert(after[i] == t);
                } else {
                    assert(after[i + 1] == t);
                }
            }
        }
    }
}

/// The hardware addresses of the physically attached adapters, ascending and
/// once each.
pub fn physical_macs(adapters: &Vec<AdapterRecord>) -> (macs: Vec<String>)
    ensures
        strictly_ascending(macs.deep_view()),
        forall|mac: Seq<char>| #[trigger] macs.deep_view().contains(mac) <==> physical_mac(adapters@, mac),
{
    let mut macs: Vec<String> = Vec::new();
    let mut i: usize = 0;
    while i < adapters.len()
        invariant
            i <= adapters.len(),
            strictly_ascending(macs.deep_view()),
            forall|mac: Seq<char>| #[trigger]
                macs.deep_view().contains(mac) <==> physical_mac_among(adapters@, i as int, mac),
        decreases adapters.len() - i,
    {
        let ghost before = macs.deep_view();
        match &adapters[i].mac_address {
            Some(mac) => {
                match &adapters[i].pnp_device_id {
                    Some(id) => {
                        if is_physical_device(id.as_str()) {
                            insert_ascending(&mut macs, mac.clone());
                        }
                    },
                    None => {},
                }
            },
            None => {},
        }
        proof {
            let after = macs.deep_view();
            let adapter = adapters@[i as int];
            assert forall|mac: Seq<char>| #[trigger]
                after.contains(mac) <==> physical_mac_among(adapters@, i + 1, mac) by {
                assert(after.contains(mac) <==> (before.contains(mac) || adapter.is_physical_with(mac)));
                if physical_mac_among(adapters@, i + 1, mac) {
                    let w = choose|w: int|
                        0 <= w < i + 1 && w < adapters@.len() && #[trigger] adapters@[w].is_physical_with(
                            mac,
                        );
                    if w < i {
                        assert(physical_mac_among(adapters@, i as int, mac));
                    }
                }
            }
        }
        i = i + 1;
    }
    macs
}

/// Adds to an ascending list the addresses of `offered` that are not link-local.
pub fn add_addresses(list: &mut Vec<String>, offered: &Vec<String>)
    requires
        strictly_ascending(old(list).deep_view()),
    ensures
        strictly_ascending(final(list).deep_view()),
        forall|ip: Seq<char>| #[trigger]
            final(list).deep_view().contains(ip) <==> (old(list).deep_view().contains(ip) || offered_among(
                offered@,
                offered@.len() as int,
                ip,
            )),
{
    let ghost before = list.deep_view();
    let mut k: usize = 0;
    while k < offered.len()
        invariant
            k <= offered.len(),
            strictly_ascending(list.deep_view()),
            forall|ip: Seq<char>| #[trigger]
                list.deep_view().contains(ip) <==> (before.contains(ip) || offered_among(
                    offered@,
                    k as int,
                    ip,
                )),
        decreases offered.len() - k,
    {
        let ghost mid = list.deep_view();
        let ghost candidate = offered@[k as int]@;
        if !is_link_local_address(offered[k].as_str()) {
            insert_ascending(list, offered[k].clone());
        }
        proof {
            let after = list.deep_view();
            assert forall|ip: Seq<char>| #[trigger]
                after.contains(ip) <==> (before.contains(ip) || offered_among(offered@, k + 1, ip)) by {
                assert(after.contains(ip) <==> (mid.contains(ip) || (ip == candidate && !is_link_local(
                    candidate,
                ))));
                if offered_among(offered@, k + 1, ip) {
                    let w = choose|w: int| 0 <= w < k + 1 && w < offered@.len() && (#[trigger] offered@[w])@ == ip;
                    if w < k {
                        assert(offered_among(offered@, k as int, ip));
                    }
                }
                if ip == candidate && !is_link_local(candidate) {
                    assert(offered@[k as int]@ == ip);
                }
            }
        }
        k = k + 1;
    }
}

/// Tells whether a configuration is enabled and has one of the hardware
/// addresses in `physical`.
pub fn is_qualifying(config: &AdapterConfig, physical: &Vec<String>) -> (qualifies: bool)
    ensures
        qualifies == (config.ip_enabled == Some(true) && config.mac_address is Some
            && physical.deep_view().contains(config.mac_address->0@)),
{
    let enabled = match config.ip_enabled {
        Some(flag) => flag,
        None => false,
    };
    match &config.mac_address {
        Some(mac) => enabled && holds_text(physical, mac),
        None => false,
    }
}

/// The two address lists of a host, from the tables that the operating system
/// reports.
pub fn collect_addresses(adapters: &Vec<AdapterRecord>, configs: &Vec<AdapterConfig>) -> (lists: AddressLists)
    ensures
        is_ip_list(lists.ip_addresses.deep_view(), adapters@, configs@),
        is_mac_list(lists.mac_addresses.deep_view(), adapters@, configs@),
        lists.ip_addresses@.len() > 0,
        lists.mac_addresses@.len() > 0,
{
    let physical = physical_macs(adapters);
    let mut ips: Vec<String> = Vec::new();
    let mut macs: Vec<String> = Vec::new();
    let mut j: usize = 0;
    while j < configs.len()
        invariant
            j <= configs.len(),
            forall|mac: Seq<char>| #[trigger] physical.deep_view().contains(mac) <==> physical_mac(adapters@, mac),
            strictly_ascending(ips.deep_view()),
            strictly_ascending(macs.deep_view()),
            forall|ip: Seq<char>| #[trigger]
                ips.deep_view().contains(ip) <==> shown_ip_among(adapters@, configs@, j as int, ip),
            forall|mac: Seq<char>| #[trigger]
                macs.deep_view().contains(mac) <==> shown_mac_among(adapters@, configs@, j as int, mac),
        decreases configs.len() - j,
    {
        let ghost ips_before = ips.deep_view();
        let ghost macs_before = macs.deep_view();
        let config = &configs[j];
        if is_qualifying(config, &physical) {
            match &config.ip_addresses {
                Some(offered) => {
                    add_addresses(&mut ips, offered);
                },
                None => {},
            }
            match &config.mac_address {
                Some(mac) => {
                    insert_ascending(&mut macs, mac.clone());
                },
                None => {},
            }
        }
        proof {
            let ips_after = ips.deep_view();
            let macs_after = macs.deep_view();
            let c = configs@[j as int];
            assert forall|ip: Seq<char>| #[trigger]
                ips_after.contains(ip) <==> shown_ip_among(adapters@, configs@, j + 1, ip) by {
                assert(ips_after.contains(ip) <==> (ips_before.contains(ip) || c.shows_ip(adapters@, ip)));
                if shown_ip_among(adapters@, configs@, j + 1, ip) {
                    let w = choose|w: int|
                        0 <= w < j + 1 && w < configs@.len() && #[trigger] configs@[w].shows_ip(adapters@, ip);
                    if w < j {
                        assert(shown_ip_among(adapters@, configs@, j as int, ip));
                    }
                }
            }
            assert forall|mac: Seq<char>| #[trigger]
                macs_after.contains(mac) <==> shown_mac_among(adapters@, configs@, j + 1, mac) by {
                assert(macs_after.contains(mac) <==> (macs_before.contains(mac) || c.shows_mac(adapters@, mac)));
                if shown_mac_among(adapters@, configs@, j + 1, mac) {
                    let w = choose|w: int|
                        0 <= w < j + 1 && w < configs@.len() && #[trigger] configs@[w].shows_mac(adapters@, mac);
                    if w < j {
                        assert(shown_mac_among(adapters@, configs@, j as int, mac));
                    }
                }
            }
        }
        j = j + 1;
    }
    if ips.len() == 0 {
        proof {
            assert forall|ip: Seq<char>| !shown_ip(adapters@, configs@, ip) by {
                assert(!ips.deep_view().contains(ip));
            }
        }
        ips.push(String::from_str("未发现活跃IP"));
        proof {
            assert(ips.deep_view() =~= seq![ip_placeholder()]);
        }
    } else {
        proof {
            let first = ips.deep_view()[0];
            assert(ips.deep_view().contains(first));
            assert(shown_ip(adapters@, configs@, first));
        }
    }
    if macs.len() == 0 {
        proof {
            assert forall|mac: Seq<char>| !shown_mac(adapters@, configs@, mac) by {
                assert(!macs.deep_view().contains(mac));
            }
        }
        macs.push(String::from_str("未发现活跃MAC"));
        proof {
            assert(macs.deep_view() =~= seq![mac_placeholder()]);
        }
    } else {
        proof {
            let first = macs.deep_view()[0];
            assert(macs.deep_view().contains(first));
            assert(shown_mac(adapters@, configs@, first));
        }
    }
    AddressLists { ip_addresses: ips, mac_addresses: macs }
}

/// The profile directory under which the wallpaper files live.
pub fn profile_directory(env_profile: Option<String>) -> (dir: String)
    ensures
        dir@ == profile_or_default(env_profile),
{
    match env_profile {
        Some(dir) => {
            if dir.as_str().unicode_len() > 0 {
                dir
            } else {
                String::from_str("C:\\")
            }
        },
        None => String::from_str("C:\\"),
    }
}

/// The identity of a host whose adapter queries were answered. `env_host` and
/// `env_profile` are the computer name and the profile directory that the
/// environment gives.
pub fn queried_identity(
    adapters: &Vec<AdapterRecord>,
    configs: &Vec<AdapterConfig>,
    env_host: Option<String>,
    env_profile: Option<String>,
) -> (id: HostIdentity)
    ensures
        id.well_formed(),
        id.hostname@ == match env_host {
            Some(name) => name@,
            None => unknown_host(),
        },
        id.user_path@ == profile_or_default(env_profile),
        is_ip_list(id.ip_addresses.deep_view(), adapters@, configs@),
        is_mac_list(id.mac_addresses.deep_view(), adapters@, configs@),
{
    let lists = collect_addresses(adapters, configs);
    let hostname = match env_host {
        Some(name) => name,
        None => String::from_str("Unknown"),
    };
    HostIdentity {
        hostname,
        ip_addresses: lists.ip_addresses,
        mac_addresses: lists.mac_addresses,
        user_path: profile_directory(env_profile),
    }
}

/// The identity of a host whose adapter queries failed: what the environment
/// gives, and both address lists reduced to their placeholder.
pub fn fallback_identity(env_host: Option<String>, env_profile: Option<String>) -> (id: HostIdentity)
    ensures
        id.well_formed(),
        id.hostname@ == match env_host {
            Some(name) => name@,
            None => Seq::<char>::empty(),
        },
        id.user_path@ == profile_or_default(env_profile),
        id.ip_addresses.deep_view() == seq![ip_placeholder()],
        id.mac_addresses.deep_view() == seq![mac_placeholder()],
{
    let hostname = match env_host {
        Some(name) => name,
        None => String::new(),
    };
    let mut ip_addresses: Vec<String> = Vec::new();
    ip_addresses.push(String::from_str("未发现活跃IP"));
    let mut mac_addresses: Vec<String> = Vec::new();
    mac_addresses.push(String::from_str("未发现活跃MAC"));
    proof {
        assert(ip_addresses.deep_view() =~= seq![ip_placeholder()]);
        assert(mac_addresses.deep_view() =~= seq![mac_placeholder()]);
    }
    HostIdentity { hostname, ip_addresses, mac_addresses, user_path: profile_directory(env_profile) }
}

/// The identity of the host. `tables` holds the adapter table and the
/// configuration table where the operating system answered, and the reason
/// where it did not; a failed query is never handed on as an error.
pub fn resolve_identity(
    tables: Result<(Vec<AdapterRecord>, Vec<AdapterConfig>), String>,
    env_host: Option<String>,
    env_profile: Option<String>,
) -> (report: IdentityReport)
    ensures
        report.identity().well_formed(),
        report.identity().user_path@ == profile_or_default(env_profile),
        match tables {
            Ok((adapters, configs)) => {
                &&& report is Queried
                &&& report.identity().hostname@ == match env_host {
                    Some(name) => name@,
                    None => unknown_host(),
                }
                &&& is_ip_list(report.identity().ip_addresses.deep_view(), adapters@, configs@)
                &&& is_mac_list(report.identity().mac_addresses.deep_view(), adapters@, configs@)
            },
            Err(reason) => {
                &&& report is Fallback
                &&& report->Fallback_1 == reason
                &&& report.identity().hostname@ == match env_host {
                    Some(name) => name@,
                    None => Seq::<char>::empty(),
                }
                &&& report.identity().ip_addresses.deep_view() == seq![ip_placeholder()]
                &&& report.identity().mac_addresses.deep_view() == seq![mac_placeholder()]
            },
        },
{
    match tables {
        Ok((adapters, configs)) => IdentityReport::Queried(
            queried_identity(&adapters, &configs, env_host, env_profile),
        ),
        Err(reason) => IdentityReport::Fallback(fallback_identity(env_host, env_profile), reason),
    }
}

/// An ascending list holds no text twice.
pub proof fn lemma_ascending_no_duplicates(list: Seq<Seq<char>>)
    requires
        strictly_ascending(list),
    ensures
        list.no_duplicates(),
{
    assert forall|i: int, j: int| 0 <= i < list.len() && 0 <= j < list.len() && i != j implies list[i]
        != list[j] by {
        lemma_lex_less_irreflexive(list[i]);
        if i < j {
            assert(lex_less(list[i], list[j]));
        } else {
            assert(lex_less(list[j], list[i]));
        }
    }
}

/// Every entry of an IP list is the placeholder or an address that an enabled
/// configuration of a physically attached adapter lists; none is link-local;
/// the list is ascending and holds nothing twice.
pub proof fn lemma_ip_list_entries(
    list: Seq<Seq<char>>,
    adapters: Seq<AdapterRecord>,
    configs: Seq<AdapterConfig>,
    i: int,
)
    requires
        is_ip_list(list, adapters, configs),
        0 <= i < list.len(),
    ensures
        list[i] == ip_placeholder() || shown_ip(adapters, configs, list[i]),
        !is_link_local(list[i]),
        strictly_ascending(list),
        list.no_duplicates(),
{
    reveal_strlit("未发现活跃IP");
    reveal_strlit("fe80");
    assert("fe80"@[0] != "未发现活跃IP"@[0]);
    if exists|ip: Seq<char>| shown_ip(adapters, configs, ip) {
        assert(list.contains(list[i]));
    } else {
        assert("fe80"@.is_prefix_of(list[i]) ==> "fe80"@[0] == list[i].subrange(0, 4)[0]);
    }
    lemma_ascending_no_duplicates(list);
}

/// Every entry of a hardware address list is the placeholder or the address of
/// an enabled configuration of a physically attached adapter; the list is
/// ascending and holds nothing twice.
pub proof fn lemma_mac_list_entries(
    list: Seq<Seq<char>>,
    adapters: Seq<AdapterRecord>,
    configs: Seq<AdapterConfig>,
    i: int,
)
    requires
        is_mac_list(list, adapters, configs),
        0 <= i < list.len(),
    ensures
        list[i] == mac_placeholder() || shown_mac(adapters, configs, list[i]),
        strictly_ascending(list),
        list.no_duplicates(),
{
    if exists|mac: Seq<char>| shown_mac(adapters, configs, mac) {
        assert(list.contains(list[i]));
    }
    lemma_ascending_no_duplicates(list);
}

/// An address list is never empty, and where no address is shown it is the
/// placeholder alone.
pub proof fn lemma_placeholder_when_none(
    ips: Seq<Seq<char>>,
    macs: Seq<Seq<char>>,
    adapters: Seq<AdapterRecord>,
    configs: Seq<AdapterConfig>,
)
    requires
        is_ip_list(ips, adapters, configs),
        is_mac_list(macs, adapters, configs),
    ensures
        ips.len() > 0,
        macs.len() > 0,
        (forall|ip: Seq<char>| !shown_ip(adapters, configs, ip)) ==> ips == seq![ip_placeholder()],
        (forall|mac: Seq<char>| !shown_mac(adapters, configs, mac)) ==> macs == seq![mac_placeholder()],
{
    if exists|ip: Seq<char>| shown_ip(adapters, configs, ip) {
        let ip = choose|ip: Seq<char>| shown_ip(adapters, configs, ip);
        assert(ips.contains(ip));
    }
    if exists|mac: Seq<char>| shown_mac(adapters, configs, mac) {
        let mac = choose|mac: Seq<char>| shown_mac(adapters, configs, mac);
        assert(macs.contains(mac));
    }
}

} // verus!
