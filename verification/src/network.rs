//! Network policy: whether an outbound or listening network operation is
//! permitted, gated by offline mode, a global network toggle and a host/CIDR
//! allowlist.

use vstd::prelude::*;
use crate::errors::BootstrapError;
use crate::strutil::{
    ascii_lower, find_char, find_char_from, find_sub, lemma_find_char_from_bounds,
    lemma_find_char_from_unique, lower_seq, rfind_char, spec_find_char, spec_find_char_from,
    spec_find_seq, spec_rfind_char, spec_trim, spec_trim_brackets, substr, trim_ascii,
    trim_brackets,
};
use vstd::string::StringExecFns;

verus! {

/// What `ipnet` parses a CIDR block to: address family (`true` for IPv6),
/// network address as an integer, and prefix length.  A function of the
/// text alone.
pub uninterp spec fn cidr_of(s: Seq<char>) -> Option<(bool, u128, u8)>;

/// What `ipnet` parses a bare IP address to: address family (`true` for
/// IPv6) and the address as an integer.  A function of the text alone.
pub uninterp spec fn ip_of(s: Seq<char>) -> Option<(bool, u128)>;

/// Relies on `ipnet::IpNet::from_str`, with `addr` and `prefix_len`: which
/// network a `addr/prefix` string denotes depends on the string alone, the
/// prefix length is at most the family's bit width, and a v4 address fits in
/// 32 bits.
#[verifier::external_body]
fn parse_cidr(s: &str) -> (r: Option<(bool, u128, u8)>)
    ensures
        r == cidr_of(s@),
        match r {
            Option::Some(t) => (t.0 ==> t.2 <= 128) && (!t.0 ==> t.2 <= 32 && t.1
                < 0x100000000u128),
            Option::None => true,
        },
{
    match s.parse::<ipnet::IpNet>() {
        Ok(ipnet::IpNet::V4(net)) => Some(
            (false, u32::from(net.addr()) as u128, net.prefix_len()),
        ),
        Ok(ipnet::IpNet::V6(net)) => Some((true, u128::from(net.addr()), net.prefix_len())),
        Err(_) => None,
    }
}

/// Relies on `ipnet::IpNet::from_str`, handing it the host with a `/0`
/// prefix appended (the parser for the address part is the standard textual
/// one): which address a string denotes depends on the string alone, and a
/// v4 address fits in 32 bits.
#[verifier::external_body]
fn parse_ip(s: &str) -> (r: Option<(bool, u128)>)
    ensures
        r == ip_of(s@),
        match r {
            Option::Some(t) => !t.0 ==> t.1 < 0x100000000u128,
            Option::None => true,
        },
{
    match format!("{}/0", s).parse::<ipnet::IpNet>() {
        Ok(ipnet::IpNet::V4(net)) => Some((false, u32::from(net.addr()) as u128)),
        Ok(ipnet::IpNet::V6(net)) => Some((true, u128::from(net.addr()))),
        Err(_) => None,
    }
}

/// Whether the address `ip` lies in the network `net`: the families agree
/// and the address bits above the prefix match the network's.
pub open spec fn spec_cidr_contains(net: (bool, u128, u8), ip: (bool, u128)) -> bool {
    net.0 == ip.0 && {
        let bits: u8 = if net.0 {
            128u8
        } else {
            32u8
        };
        net.2 == 0 || (net.2 <= bits && (net.1 >> ((bits - net.2) as u128)) == (ip.1 >> ((bits
            - net.2) as u128)))
    }
}

/// Whether the address `ip` lies in the network `net`.
fn cidr_contains(net: (bool, u128, u8), ip: (bool, u128)) -> (r: bool)
    requires
        net.0 ==> net.2 <= 128,
        !net.0 ==> net.2 <= 32,
    ensures
        r == spec_cidr_contains(net, ip),
{
    if net.0 != ip.0 {
        return false;
    }
    let bits: u8 = if net.0 {
        128
    } else {
        32
    };
    if net.2 == 0 {
        return true;
    }
    let shift: u128 = (bits - net.2) as u128;
    (net.1 >> shift) == (ip.1 >> shift)
}

/// One allowlist entry: an exact host name, kept as parsed, or a CIDR block.
#[derive(Debug, Clone)]
enum NetEntry {
    Host(String),
    Cidr(bool, u128, u8),
}

/// The mathematical image of an allowlist entry.
pub enum NetEntrySpec {
    Host(Seq<char>),
    Cidr(bool, u128, u8),
}

/// A parsed network allowlist: exact lowercase host names and CIDR blocks.
#[derive(Debug, Clone, Default)]
pub struct NetAllowList {
    entries: Vec<NetEntry>,
}

impl NetAllowList {
    /// The mathematical image of this allowlist.
    pub closed spec fn view_entries(&self) -> Seq<NetEntrySpec> {
        self.entries@.map_values(
            |e: NetEntry|
                match e {
                    NetEntry::Host(h) => NetEntrySpec::Host(h@),
                    NetEntry::Cidr(v6, addr, prefix) => NetEntrySpec::Cidr(v6, addr, prefix),
                },
        )
    }

    /// Every CIDR entry's prefix length is within its family's bit width.
    pub closed spec fn wf(&self) -> bool {
        forall|i: int|
            0 <= i < self.view_entries().len() ==> match #[trigger] self.view_entries()[i] {
                NetEntrySpec::Cidr(v6, addr, prefix) => (v6 ==> prefix <= 128) && (!v6 ==> prefix
                    <= 32),
                NetEntrySpec::Host(_) => true,
            }
    }
}

/// Strips scheme, path, userinfo, IPv6 brackets and port from a target, in
/// that order, each by plain text search.
pub open spec fn spec_normalize_host(s: Seq<char>) -> Seq<char> {
    let after_scheme = match spec_find_seq(s, "://"@, 0) {
        Option::Some(i) => s.subrange(i + 3, s.len() as int),
        Option::None => s,
    };
    let no_path = match spec_find_char(after_scheme, '/') {
        Option::Some(i) => after_scheme.subrange(0, i),
        Option::None => after_scheme,
    };
    let no_user = match spec_rfind_char(no_path, '@') {
        Option::Some(i) => no_path.subrange(i + 1, no_path.len() as int),
        Option::None => no_path,
    };
    let no_brackets = spec_trim_brackets(no_user);
    match spec_find_char(no_brackets, ':') {
        Option::Some(i) => no_brackets.subrange(0, i),
        Option::None => no_brackets,
    }
}

/// Reduces a target to a bare host: strips scheme, path, userinfo, IPv6
/// brackets and port.
pub fn normalize_host(input: &str) -> (r: String)
    ensures
        r@ == spec_normalize_host(input@),
{
    let n: usize = input.unicode_len();
    let after_scheme: String = match find_sub(input, "://") {
        Option::Some(i) => {
            proof {
                reveal_strlit("://");
            }
            substr(input, i + 3, n)
        },
        Option::None => {
            proof {
                reveal_strlit("://");
            }
            String::from_str(input)
        },
    };
    let no_path: String = match find_char(after_scheme.as_str(), '/') {
        Option::Some(i) => substr(after_scheme.as_str(), 0, i),
        Option::None => after_scheme,
    };
    let pn: usize = no_path.unicode_len();
    let no_user: String = match rfind_char(no_path.as_str(), '@') {
        Option::Some(i) => substr(no_path.as_str(), i + 1, pn),
        Option::None => no_path,
    };
    let no_brackets: String = trim_brackets(no_user.as_str());
    match find_char(no_brackets.as_str(), ':') {
        Option::Some(i) => substr(no_brackets.as_str(), 0, i),
        Option::None => no_brackets,
    }
}

/// The allowlist entries a single comma-separated token contributes: none
/// when it is blank or normalizes to nothing, a CIDR block when it (or its
/// normalized host) parses as one, an exact lowercase host otherwise.
pub open spec fn spec_entries_of_token(tok: Seq<char>) -> Seq<NetEntrySpec> {
    let t = spec_trim(tok);
    if t.len() == 0 {
        Seq::<NetEntrySpec>::empty()
    } else {
        match cidr_of(t) {
            Option::Some(c) => seq![NetEntrySpec::Cidr(c.0, c.1, c.2)],
            Option::None => {
                let h = spec_normalize_host(t);
                if h.len() == 0 {
                    Seq::<NetEntrySpec>::empty()
                } else {
                    match cidr_of(h) {
                        Option::Some(c) => seq![NetEntrySpec::Cidr(c.0, c.1, c.2)],
                        Option::None => seq![NetEntrySpec::Host(lower_seq(h))],
                    }
                }
            },
        }
    }
}

/// The allowlist entries of a raw comma-separated list.
pub open spec fn spec_entries_of_raw(s: Seq<char>) -> Seq<NetEntrySpec>
    decreases s.len(),
{
    match spec_find_char(s, ',') {
        Option::Some(i) => if 0 <= i < s.len() {
            spec_entries_of_token(s.subrange(0, i)) + spec_entries_of_raw(
                s.subrange(i + 1, s.len() as int),
            )
        } else {
            spec_entries_of_token(s)
        },
        Option::None => spec_entries_of_token(s),
    }
}

/// The allowlist an optional raw flag value parses to.
pub open spec fn spec_parse_allowlist(raw: Option<Seq<char>>) -> Seq<NetEntrySpec> {
    match raw {
        Option::Some(s) => spec_entries_of_raw(s),
        Option::None => Seq::<NetEntrySpec>::empty(),
    }
}

impl NetAllowList {
    /// Parses a comma-separated list of hosts and CIDR blocks.  Blank tokens
    /// are skipped; host names are normalized and lowercased.
    pub fn parse(raw: Option<&str>) -> (r: Result<Self, BootstrapError>)
        ensures
            match r {
                Result::Ok(list) => list.view_entries() == spec_parse_allowlist(
                    match raw {
                        Option::Some(s) => Option::Some(s@),
                        Option::None => Option::<Seq<char>>::None,
                    },
                ) && list.wf(),
                Result::Err(_) => false,
            },
    {
        let mut entries: Vec<NetEntry> = Vec::new();
        let raw_str: &str = match raw {
            Option::Some(s) => s,
            Option::None => {
                let list = NetAllowList { entries };
                assert(list.view_entries() =~= Seq::<NetEntrySpec>::empty());
                return Result::Ok(list);
            },
        };
        let n: usize = raw_str.unicode_len();
        let mut start: usize = 0;
        let ghost full = raw_str@;
        proof {
            assert(full.subrange(0, n as int) =~= full);
            assert(entries_view(entries@) =~= Seq::<NetEntrySpec>::empty());
        }
        loop
            invariant_except_break
                entries_view(entries@) + spec_entries_of_raw(full.subrange(start as int, n as int))
                    =~= spec_entries_of_raw(full),
            invariant
                start <= n,
                n == full.len(),
                raw_str@ == full,
                wf_entries(entries@),
            ensures
                entries_view(entries@) =~= spec_entries_of_raw(full),
                wf_entries(entries@),
            decreases n - start,
        {
            let ghost remaining = full.subrange(start as int, n as int);
            let ghost before = entries_view(entries@);
            let (token, next, last): (String, usize, bool) = match find_char_from(
                raw_str,
                ',',
                start,
            ) {
                Option::Some(i) => {
                    proof {
                        lemma_find_char_from_bounds(full, ',', start as int);
                        assert(remaining[i - start] == full[i as int]);
                        assert forall|j: int| 0 <= j < i - start implies remaining[j] != ',' by {
                            assert(remaining[j] == full[start + j]);
                        };
                        lemma_find_char_from_unique(remaining, ',', 0, i - start);
                        assert(remaining.subrange(0, i - start) =~= full.subrange(
                            start as int,
                            i as int,
                        ));
                        assert(remaining.subrange(i - start + 1, remaining.len() as int)
                            =~= full.subrange(i + 1, n as int));
                        assert(spec_entries_of_raw(remaining) == spec_entries_of_token(
                            full.subrange(start as int, i as int),
                        ) + spec_entries_of_raw(full.subrange(i + 1, n as int)));
                    }
                    (substr(raw_str, start, i), i + 1, false)
                },
                Option::None => {
                    proof {
                        lemma_find_char_from_bounds(full, ',', start as int);
                        lemma_find_char_from_bounds(remaining, ',', 0);
                        if spec_find_char(remaining, ',') is Some {
                            let t = spec_find_char(remaining, ',')->Some_0;
                            assert(remaining[t] == full[start + t]);
                            assert(false);
                        }
                        assert(spec_entries_of_raw(remaining) == spec_entries_of_token(remaining));
                    }
                    (substr(raw_str, start, n), n, true)
                },
            };
            push_token_entries(&mut entries, token.as_str());
            if last {
                assert(entries_view(entries@) =~= before + spec_entries_of_token(remaining));
                break ;
            }
            proof {
                assert(entries_view(entries@) + spec_entries_of_raw(
                    full.subrange(next as int, n as int),
                ) =~= (before + spec_entries_of_token(token@)) + spec_entries_of_raw(
                    full.subrange(next as int, n as int),
                ));
                assert((before + spec_entries_of_token(token@)) + spec_entries_of_raw(
                    full.subrange(next as int, n as int),
                ) =~= before + (spec_entries_of_token(token@) + spec_entries_of_raw(
                    full.subrange(next as int, n as int),
                )));
                assert(before + spec_entries_of_raw(remaining) =~= spec_entries_of_raw(full));
            }
            start = next;
        }
        let list = NetAllowList { entries };
        Result::Ok(list)
    }

    /// No entries at all.
    pub fn is_empty(&self) -> (r: bool)
        ensures
            r == (self.view_entries().len() == 0),
    {
        self.entries.len() == 0
    }

    /// Whether `target`'s normalized host is allowed: by exact lowercase
    /// host match, or by CIDR containment when the host is an IP address.
    pub fn is_allowed(&self, target: &str) -> (r: bool)
        requires
            self.wf(),
        ensures
            r == spec_is_allowed(self.view_entries(), target@),
    {
        let host = normalize_host(target);
        let host_lower = ascii_lower(host.as_str());
        let ip = parse_ip(host.as_str());
        let n = self.entries.len();
        let mut i: usize = 0;
        while i < n
            invariant
                i <= n,
                n == self.entries@.len(),
                self.wf(),
                host@ == spec_normalize_host(target@),
                host_lower@ == lower_seq(spec_normalize_host(target@)),
                ip == ip_of(spec_normalize_host(target@)),
                forall|j: int|
                    0 <= j < i ==> !spec_entry_matches(
                        self.view_entries()[j],
                        lower_seq(spec_normalize_host(target@)),
                        ip_of(spec_normalize_host(target@)),
                    ),
            decreases n - i,
        {
            assert(self.view_entries()[i as int] == match self.entries@[i as int] {
                NetEntry::Host(h) => NetEntrySpec::Host(h@),
                NetEntry::Cidr(v6, addr, prefix) => NetEntrySpec::Cidr(v6, addr, prefix),
            });
            let matched: bool = match &self.entries[i] {
                NetEntry::Host(allowed) => crate::strutil::str_eq(
                    host_lower.as_str(),
                    allowed.as_str(),
                ),
                NetEntry::Cidr(v6, addr, prefix) => {
                    match ip {
                        Option::Some(p) => cidr_contains((*v6, *addr, *prefix), p),
                        Option::None => false,
                    }
                },
            };
            if matched {
                return true;
            }
            i = i + 1;
        }
        false
    }
}

/// The mathematical image of a vector of entries.
spec fn entries_view_one(e: NetEntry) -> NetEntrySpec {
    match e {
        NetEntry::Host(h) => NetEntrySpec::Host(h@),
        NetEntry::Cidr(v6, addr, prefix) => NetEntrySpec::Cidr(v6, addr, prefix),
    }
}

spec fn entries_view(entries: Seq<NetEntry>) -> Seq<NetEntrySpec> {
    entries.map_values(|e: NetEntry| entries_view_one(e))
}

spec fn wf_entries(entries: Seq<NetEntry>) -> bool {
    forall|i: int|
        0 <= i < entries.len() ==> match #[trigger] entries_view(entries)[i] {
            NetEntrySpec::Cidr(v6, addr, prefix) => (v6 ==> prefix <= 128) && (!v6 ==> prefix
                <= 32),
            NetEntrySpec::Host(_) => true,
        }
}

/// Whether one entry admits the given lowercase host or address.
pub open spec fn spec_entry_matches(
    e: NetEntrySpec,
    host_lower: Seq<char>,
    ip: Option<(bool, u128)>,
) -> bool {
    match e {
        NetEntrySpec::Host(allowed) => allowed == host_lower,
        NetEntrySpec::Cidr(v6, addr, prefix) => match ip {
            Option::Some(p) => spec_cidr_contains((v6, addr, prefix), p),
            Option::None => false,
        },
    }
}

/// Whether any entry admits `target`'s normalized host.
pub open spec fn spec_is_allowed(entries: Seq<NetEntrySpec>, target: Seq<char>) -> bool {
    exists|i: int|
        0 <= i < entries.len() && spec_entry_matches(
            #[trigger] entries[i],
            lower_seq(spec_normalize_host(target)),
            ip_of(spec_normalize_host(target)),
        )
}

/// Appends the entries one token contributes.
fn push_token_entries(entries: &mut Vec<NetEntry>, token: &str)
    requires
        wf_entries(old(entries)@),
    ensures
        entries_view(final(entries)@) == entries_view(old(entries)@) + spec_entries_of_token(
            token@,
        ),
        wf_entries(final(entries)@),
{
    let trimmed = trim_ascii(token);
    let ghost before = entries@;
    if trimmed.as_str().unicode_len() == 0 {
        assert(entries_view(entries@) =~= entries_view(before) + spec_entries_of_token(token@));
        return ;
    }
    match parse_cidr(trimmed.as_str()) {
        Option::Some(c) => {
            entries.push(NetEntry::Cidr(c.0, c.1, c.2));
            assert(entries_view(entries@) =~= entries_view(before) + spec_entries_of_token(
                token@,
            ));
            return ;
        },
        Option::None => {},
    }
    let host = normalize_host(trimmed.as_str());
    if host.as_str().unicode_len() == 0 {
        assert(entries_view(entries@) =~= entries_view(before) + spec_entries_of_token(token@));
        return ;
    }
    match parse_cidr(host.as_str()) {
        Option::Some(c) => {
            entries.push(NetEntry::Cidr(c.0, c.1, c.2));
            assert(entries_view(entries@) =~= entries_view(before) + spec_entries_of_token(
                token@,
            ));
        },
        Option::None => {
            entries.push(NetEntry::Host(ascii_lower(host.as_str())));
            assert(entries_view(entries@) =~= entries_view(before) + spec_entries_of_token(
                token@,
            ));
        },
    }
}

/// The policy that gates every outbound fetch and every listener.
#[derive(Debug, Clone)]
pub struct NetworkPolicy {
    allow_network: bool,
    offline_only: bool,
    allowlist: NetAllowList,
}

/// The mathematical image of a network policy.
pub struct NetworkPolicySpec {
    pub allow_network: bool,
    pub offline_only: bool,
    pub allowlist: Seq<NetEntrySpec>,
}

impl NetworkPolicy {
    /// The mathematical image of this policy.
    pub closed spec fn view_policy(&self) -> NetworkPolicySpec {
        NetworkPolicySpec {
            allow_network: self.allow_network,
            offline_only: self.offline_only,
            allowlist: self.allowlist.view_entries(),
        }
    }

    pub closed spec fn wf(&self) -> bool {
        self.allowlist.wf()
    }

    pub fn new(allow_network: bool, offline_only: bool, allowlist: NetAllowList) -> (r: Self)
        requires
            allowlist.wf(),
        ensures
            r.view_policy().allow_network == allow_network,
            r.view_policy().offline_only == offline_only,
            r.view_policy().allowlist == allowlist.view_entries(),
            r.wf(),
    {
        NetworkPolicy { allow_network, offline_only, allowlist }
    }

    pub fn allow_network(&self) -> (r: bool)
        ensures
            r == self.view_policy().allow_network,
    {
        self.allow_network
    }

    pub fn offline_only(&self) -> (r: bool)
        ensures
            r == self.view_policy().offline_only,
    {
        self.offline_only
    }

    pub fn allowlist_configured(&self) -> (r: bool)
        ensures
            r == (self.view_policy().allowlist.len() > 0),
    {
        !self.allowlist.is_empty()
    }

    /// Whether this policy lets `target` through: not offline, network
    /// allowed, and — when an allowlist is configured at all — the
    /// allowlist admits the target's host.  An empty allowlist restricts
    /// nothing.
    pub open spec fn spec_allows(policy: NetworkPolicySpec, target: Seq<char>) -> bool {
        !policy.offline_only && policy.allow_network && (policy.allowlist.len() == 0
            || spec_is_allowed(policy.allowlist, target))
    }

    /// Evaluates the policy against a target, in fixed order: offline mode
    /// denies everything; then the global toggle; then, when the allowlist
    /// is non-empty, membership in it.
    pub fn enforce(&self, target: &str) -> (r: Result<(), BootstrapError>)
        requires
            self.wf(),
        ensures
            r is Ok <==> Self::spec_allows(self.view_policy(), target@),
            r is Err ==> r->Err_0 is NetworkDenied,
            self.view_policy().offline_only ==> r is Err,
    {
        if self.offline_only {
            return Result::Err(
                BootstrapError::NetworkDenied(
                    String::from_str("offline-only mode blocks outbound network access"),
                ),
            );
        }
        if !self.allow_network {
            return Result::Err(
                BootstrapError::NetworkDenied(
                    String::from_str(
                        "network access disabled; pass --allow-network to enable outbound calls",
                    ),
                ),
            );
        }
        if !self.allowlist.is_empty() && !self.allowlist.is_allowed(target) {
            let msg = crate::strutil::concat3(
                "network target '",
                target,
                "' not in allowlist; set --net-allowlist to permit it",
            );
            return Result::Err(BootstrapError::NetworkDenied(msg));
        }
        Result::Ok(())
    }
}

/// An offline-only policy denies every target, whatever the other flags and
/// the allowlist say.
pub proof fn lemma_offline_only_denies(policy: NetworkPolicySpec, target: Seq<char>)
    requires
        policy.offline_only,
    ensures
        !NetworkPolicy::spec_allows(policy, target),
{
}

} // verus!
