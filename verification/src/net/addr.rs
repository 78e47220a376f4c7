//! Network addresses as lists of protocol components, and what is done
//! with the addresses that peer discovery reports.

use crate::sync::request::PeerId;
use itertools::Itertools;
use vstd::prelude::*;

verus! {

/// One component of a network address.
#[derive(Clone, Copy, Debug, PartialEq, Eq, Structural)]
pub enum Protocol {
    /// An IPv4 address, as a number.
    Ip4(u32),
    /// An IPv6 address, as a number.
    Ip6(u128),
    /// A TCP port.
    Tcp(u16),
    /// The identity of the peer that is reached.
    P2p(PeerId),
    /// Any other component, by its code.
    Other(u32),
}

/// A network address: its components from the outermost on.
#[derive(Debug, Clone, PartialEq, Eq)]
pub struct Multiaddr {
    pub components: Vec<Protocol>,
}

impl View for Multiaddr {
    type V = Seq<Protocol>;

    open spec fn view(&self) -> Seq<Protocol> {
        self.components@
    }
}

/// What `parse_discovered_addr` makes of an address: an address of the form
/// IP, TCP port, peer identity is kept; one without the identity gets the
/// identity of the peer that it was discovered for; any other is dropped.
pub open spec fn spec_parse_discovered_addr(peer_id: PeerId, addr: Seq<Protocol>) -> Option<
    Seq<Protocol>,
> {
    if addr.len() < 2 || !(addr[0] is Ip4 || addr[0] is Ip6) || !(addr[1] is Tcp) {
        None
    } else if addr.len() == 2 {
        Some(addr.push(Protocol::P2p(peer_id)))
    } else if addr[2] is P2p {
        Some(addr)
    } else {
        None
    }
}

/// The view of an address that may be absent.
pub open spec fn opt_addr_view(a: Option<Multiaddr>) -> Option<Seq<Protocol>> {
    match a {
        Some(a) => Some(a@),
        None => None,
    }
}

impl Multiaddr {
    pub fn new(components: Vec<Protocol>) -> (r: Multiaddr)
        ensures
            r.components == components,
    {
        Multiaddr { components }
    }

    /// A copy of the address.
    pub fn duplicate(&self) -> (r: Multiaddr)
        ensures
            r@ == self@,
    {
        let mut components: Vec<Protocol> = Vec::new();
        let mut i: usize = 0;
        while i < self.components.len()
            invariant
                i <= self.components@.len(),
                components@ == self.components@.take(i as int),
            decreases self.components@.len() - i,
        {
            components.push(self.components[i]);
            assert(self.components@.take(i as int + 1) =~= self.components@.take(i as int).push(
                self.components@[i as int],
            ));
            i = i + 1;
        }
        assert(self.components@.take(self.components@.len() as int) =~= self.components@);
        Multiaddr { components }
    }

    /// The address with one more component at its end.
    pub fn with(self, p: Protocol) -> (r: Multiaddr)
        ensures
            r@ == self@.push(p),
    {
        let mut components = self.components;
        components.push(p);
        Multiaddr { components }
    }

    /// The identity of the peer that the address ends in: the last
    /// component, if it is an identity.
    pub fn peer_id(&self) -> (r: Option<PeerId>)
        ensures
            r == if self@.len() > 0 && self@.last() is P2p {
                Some(self@.last()->P2p_0)
            } else {
                None
            },
    {
        if self.components.len() == 0 {
            return None;
        }
        match self.components[self.components.len() - 1] {
            Protocol::P2p(id) => Some(id),
            _ => None,
        }
    }
}

/// Verify that the discovered multiaddress is in a format that is supported:
///   /ip4/<IPv4 address>/tcp/<TCP port>/p2p/<PeerId multihash>
///   /ip6/<IPv6 address>/tcp/<TCP port>/p2p/<PeerId multihash>
///
/// If the address does not include the PeerId, it is added. Otherwise the
/// address is returned as it is.
pub fn parse_discovered_addr(peer_id: PeerId, peer_addr: Multiaddr) -> (r: Option<Multiaddr>)
    ensures
        opt_addr_view(r) == spec_parse_discovered_addr(peer_id, peer_addr@),
{
    let n = peer_addr.components.len();
    if n < 1 {
        return None;
    }
    match peer_addr.components[0] {
        Protocol::Ip4(_) => {},
        Protocol::Ip6(_) => {},
        _ => {
            return None;
        },
    }
    if n < 2 {
        return None;
    }
    match peer_addr.components[1] {
        Protocol::Tcp(_) => {},
        _ => {
            return None;
        },
    }
    if n == 2 {
        return Some(peer_addr.with(Protocol::P2p(peer_id)));
    }
    match peer_addr.components[2] {
        Protocol::P2p(_) => Some(peer_addr),
        _ => None,
    }
}

/// Get the network layer protocol from `addr`
pub fn get_addr_from_multiaddr(addr: &Multiaddr) -> (r: Option<Protocol>)
    ensures
        r == if addr@.len() > 0 {
            Some(addr@[0])
        } else {
            None
        },
{
    if addr.components.len() > 0 {
        Some(addr.components[0])
    } else {
        None
    }
}

/// What the addresses of one peer are.
pub struct AddrInfoView {
    pub id: PeerId,
    pub ip4: Seq<Seq<Protocol>>,
    pub ip6: Seq<Seq<Protocol>>,
}

/// The addresses of one peer, by the kind of their first component.
#[derive(Debug, PartialEq, Eq)]
pub struct AddrInfo {
    pub id: PeerId,
    pub ip4: Vec<Multiaddr>,
    pub ip6: Vec<Multiaddr>,
}

/// The views of a list of addresses.
pub open spec fn addrs_view(s: Seq<Multiaddr>) -> Seq<Seq<Protocol>> {
    s.map_values(|a: Multiaddr| a@)
}

impl View for AddrInfo {
    type V = AddrInfoView;

    open spec fn view(&self) -> AddrInfoView {
        AddrInfoView { id: self.id, ip4: addrs_view(self.ip4@), ip6: addrs_view(self.ip6@) }
    }
}

/// A peer and an address that was discovered for it.
#[derive(Debug, PartialEq, Eq)]
pub struct Discovered {
    pub peer_id: PeerId,
    pub addr: Multiaddr,
}

/// What a discovered address is.
pub struct DiscoveredView {
    pub peer_id: PeerId,
    pub addr: Seq<Protocol>,
}

impl View for Discovered {
    type V = DiscoveredView;

    open spec fn view(&self) -> DiscoveredView {
        DiscoveredView { peer_id: self.peer_id, addr: self.addr@ }
    }
}

/// The views of a list of discovered addresses.
pub open spec fn discovered_view(s: Seq<Discovered>) -> Seq<DiscoveredView> {
    s.map_values(|d: Discovered| d@)
}

/// The addresses among `peers` that were discovered for `id`, are in a
/// supported format and start with IPv4 (or else with IPv6), each as
/// `parse_discovered_addr` gives it, in the order of `peers`.
pub open spec fn addrs_of(peers: Seq<DiscoveredView>, id: PeerId, ip4: bool) -> Seq<Seq<Protocol>>
    decreases peers.len(),
{
    if peers.len() == 0 {
        Seq::empty()
    } else {
        let rest = addrs_of(peers.drop_last(), id, ip4);
        let last = peers.last();
        match spec_parse_discovered_addr(last.peer_id, last.addr) {
            Some(a) => if last.peer_id == id && (a[0] is Ip4) == ip4 {
                rest.push(a)
            } else {
                rest
            },
            None => rest,
        }
    }
}

/// Whether an address of a supported format was discovered for the peer.
pub open spec fn has_addr(peers: Seq<DiscoveredView>, id: PeerId) -> bool {
    addrs_of(peers, id, true).len() + addrs_of(peers, id, false).len() > 0
}

/// Whether `infos` is what `parse_peers` owes for `peers`: one entry for
/// each peer that has an address of a supported format, in the order of
/// the peers' identifiers, each with the addresses of that peer.
pub open spec fn is_grouping(peers: Seq<DiscoveredView>, infos: Seq<AddrInfoView>) -> bool {
    &&& forall|i: int, j: int| 0 <= i < j < infos.len() ==> infos[i].id < infos[j].id
    &&& forall|i: int|
        0 <= i < infos.len() ==> {
            &&& has_addr(peers, (#[trigger] infos[i]).id)
            &&& infos[i].ip4 == addrs_of(peers, infos[i].id, true)
            &&& infos[i].ip6 == addrs_of(peers, infos[i].id, false)
        }
    &&& forall|id: PeerId|
        has_addr(peers, id) ==> exists|i: int| 0 <= i < infos.len() && (#[trigger] infos[i]).id == id
}

/// The views of a list of entries.
pub open spec fn infos_view(s: Seq<AddrInfo>) -> Seq<AddrInfoView> {
    s.map_values(|a: AddrInfo| a@)
}

/// The discovered addresses of one peer, in their order.
pub open spec fn of_peer(s: Seq<DiscoveredView>, id: PeerId) -> Seq<DiscoveredView> {
    s.filter(|d: DiscoveredView| d.peer_id == id)
}

/// Whether the peers' identifiers never decrease along the list.
pub open spec fn in_peer_order(s: Seq<DiscoveredView>) -> bool {
    forall|i: int, j: int| 0 <= i <= j < s.len() ==> s[i].peer_id <= s[j].peer_id
}

/// The addresses of a supported format among `s`, each as
/// `parse_discovered_addr` gives it and with its peer, in their order.
pub open spec fn supported(s: Seq<DiscoveredView>) -> Seq<DiscoveredView>
    decreases s.len(),
{
    if s.len() == 0 {
        Seq::empty()
    } else {
        let rest = supported(s.drop_last());
        let last = s.last();
        match spec_parse_discovered_addr(last.peer_id, last.addr) {
            Some(a) => rest.push(DiscoveredView { peer_id: last.peer_id, addr: a }),
            None => rest,
        }
    }
}

/// The addresses in `s` that start with IPv4 (or else those that do not),
/// in their order.
pub open spec fn starting_with(s: Seq<DiscoveredView>, ip4: bool) -> Seq<Seq<Protocol>>
    decreases s.len(),
{
    if s.len() == 0 {
        Seq::empty()
    } else {
        let rest = starting_with(s.drop_last(), ip4);
        if (s.last().addr[0] is Ip4) == ip4 {
            rest.push(s.last().addr)
        } else {
            rest
        }
    }
}

/// The addresses in `s` that belong to the peer and start with IPv4 (or
/// else those that belong to it and do not), in their order.
pub open spec fn picked(s: Seq<DiscoveredView>, id: PeerId, ip4: bool) -> Seq<Seq<Protocol>>
    decreases s.len(),
{
    if s.len() == 0 {
        Seq::empty()
    } else {
        let rest = picked(s.drop_last(), id, ip4);
        if s.last().peer_id == id && (s.last().addr[0] is Ip4) == ip4 {
            rest.push(s.last().addr)
        } else {
            rest
        }
    }
}

/// The views of a list of groups.
pub open spec fn groups_view(s: Seq<Vec<Discovered>>) -> Seq<Seq<DiscoveredView>> {
    s.map_values(|g: Vec<Discovered>| discovered_view(g@))
}

/// The groups one after the other, as one list.
pub open spec fn joined(groups: Seq<Seq<DiscoveredView>>) -> Seq<DiscoveredView>
    decreases groups.len(),
{
    if groups.len() == 0 {
        Seq::empty()
    } else {
        joined(groups.drop_last()) + groups.last()
    }
}

/// Whether the list is not empty and all its addresses belong to one peer.
pub open spec fn is_run(g: Seq<DiscoveredView>) -> bool {
    g.len() > 0 && forall|i: int| 0 <= i < g.len() ==> (#[trigger] g[i]).peer_id == g[0].peer_id
}

/// Whether each group is a run and no two neighbours belong to one peer.
pub open spec fn are_runs(groups: Seq<Seq<DiscoveredView>>) -> bool {
    &&& forall|i: int| 0 <= i < groups.len() ==> is_run(#[trigger] groups[i])
    &&& forall|i: int|
        0 < i < groups.len() ==> groups[i - 1][0].peer_id != (#[trigger] groups[i])[0].peer_id
}

/// What `AddrInfo::from_iter` makes of a list of addresses: the entry of
/// the peer of the last one, with the addresses by their first component.
pub open spec fn spec_from_iter(g: Seq<DiscoveredView>) -> AddrInfoView {
    AddrInfoView {
        id: g.last().peer_id,
        ip4: starting_with(g, true),
        ip6: starting_with(g, false),
    }
}

/// Whether every address starts with an IP component.
pub open spec fn all_start_with_ip(s: Seq<DiscoveredView>) -> bool {
    forall|i: int|
        0 <= i < s.len() ==> (#[trigger] s[i]).addr.len() > 0 && (s[i].addr[0] is Ip4
            || s[i].addr[0] is Ip6)
}

impl AddrInfo {
    /// Collects addresses into one entry: the entry gets the peer of the
    /// last address, the addresses that start with IPv4 on one list and
    /// those that start with IPv6 on the other, each in their order.
    pub fn from_iter(addrs: &Vec<Discovered>) -> (r: AddrInfo)
        requires
            addrs@.len() > 0,
            all_start_with_ip(discovered_view(addrs@)),
        ensures
            r@ == spec_from_iter(discovered_view(addrs@)),
    {
        let ghost all = discovered_view(addrs@);
        let mut entry = AddrInfo { id: addrs[0].peer_id, ip4: Vec::new(), ip6: Vec::new() };
        let mut n: usize = 0;
        assert(all.take(0) =~= Seq::<DiscoveredView>::empty());
        while n < addrs.len()
            invariant
                n <= addrs@.len(),
                all == discovered_view(addrs@),
                all_start_with_ip(all),
                n > 0 ==> entry.id == all[n - 1].peer_id,
                addrs_view(entry.ip4@) == starting_with(all.take(n as int), true),
                addrs_view(entry.ip6@) == starting_with(all.take(n as int), false),
            decreases addrs@.len() - n,
        {
            let ghost before = entry@;
            proof {
                assert(all.take(n as int + 1).drop_last() =~= all.take(n as int));
                assert(all[n as int] == addrs@[n as int]@);
                assert(all[n as int].addr.len() > 0);
            }
            entry.id = addrs[n].peer_id;
            let addr = addrs[n].addr.duplicate();
            match addr.components[0] {
                Protocol::Ip4(_) => {
                    entry.ip4.push(addr);
                    assert(addrs_view(entry.ip4@) =~= before.ip4.push(addr@));
                },
                _ => {
                    entry.ip6.push(addr);
                    assert(addrs_view(entry.ip6@) =~= before.ip6.push(addr@));
                },
            }
            n = n + 1;
        }
        assert(all.take(addrs@.len() as int) =~= all);
        entry
    }
}

/// `slice::sort_by_key` of std, with the peer as the key. It is stable:
/// the list comes out in the order of the peers' identifiers, and the
/// addresses of each peer are the same as before, in the same order.
#[verifier::external_body]
fn sort_by_peer(peers: &mut Vec<Discovered>)
    ensures
        in_peer_order(discovered_view(final(peers)@)),
        forall|id: PeerId| #[trigger]
            of_peer(discovered_view(final(peers)@), id) == of_peer(discovered_view(old(peers)@), id),
{
    peers.sort_by_key(|d| d.peer_id);
}

/// `Itertools::group_by` of itertools, with the peer as the key, each
/// group collected. The groups are the runs of the list: one after the
/// other they give the list, none is empty, each belongs to one peer, and
/// two neighbours belong to different peers.
#[verifier::external_body]
fn group_by_peer(items: Vec<Discovered>) -> (r: Vec<Vec<Discovered>>)
    ensures
        joined(groups_view(r@)) == discovered_view(items@),
        are_runs(groups_view(r@)),
{
    let grouped = items.into_iter().group_by(|d| d.peer_id);
    let mut out: Vec<Vec<Discovered>> = Vec::new();
    for (_, group) in &grouped {
        out.push(group.collect());
    }
    out
}

/// The addresses of a supported format among `peers`, each as
/// `parse_discovered_addr` gives it.
fn parse_all(peers: &Vec<Discovered>) -> (r: Vec<Discovered>)
    ensures
        discovered_view(r@) == supported(discovered_view(peers@)),
{
    let ghost all = discovered_view(peers@);
    let mut out: Vec<Discovered> = Vec::new();
    let mut n: usize = 0;
    assert(all.take(0) =~= Seq::<DiscoveredView>::empty());
    assert(discovered_view(out@) =~= Seq::<DiscoveredView>::empty());
    while n < peers.len()
        invariant
            n <= peers@.len(),
            all == discovered_view(peers@),
            discovered_view(out@) == supported(all.take(n as int)),
        decreases peers@.len() - n,
    {
        let ghost before = discovered_view(out@);
        proof {
            assert(all.take(n as int + 1).drop_last() =~= all.take(n as int));
            assert(all[n as int] == peers@[n as int]@);
        }
        let peer_id = peers[n].peer_id;
        match parse_discovered_addr(peer_id, peers[n].addr.duplicate()) {
            Some(addr) => {
                let item = Discovered { peer_id, addr };
                out.push(item);
                assert(discovered_view(out@) =~= before.push(item@));
            },
            None => {},
        }
        n = n + 1;
    }
    assert(all.take(peers@.len() as int) =~= all);
    out
}

/// What one more discovered address adds to the addresses of a peer.
proof fn lemma_of_peer_push(s: Seq<DiscoveredView>, d: DiscoveredView, id: PeerId)
    ensures
        of_peer(s.push(d), id) == if d.peer_id == id {
            of_peer(s, id).push(d)
        } else {
            of_peer(s, id)
        },
{
    reveal(Seq::filter);
    assert(s.push(d).drop_last() =~= s);
}

/// The addresses that are kept for a peer depend on the addresses that
/// were discovered for that peer alone.
pub proof fn lemma_addrs_of_peer(s: Seq<DiscoveredView>, id: PeerId, ip4: bool)
    ensures
        addrs_of(s, id, ip4) == addrs_of(of_peer(s, id), id, ip4),
    decreases s.len(),
{
    if s.len() == 0 {
        reveal(Seq::filter);
    } else {
        let t = s.drop_last();
        let d = s.last();
        assert(s =~= t.push(d));
        lemma_addrs_of_peer(t, id, ip4);
        lemma_of_peer_push(t, d, id);
        if d.peer_id == id {
            assert(of_peer(t, id).push(d).drop_last() =~= of_peer(t, id));
        }
    }
}

/// The addresses that are kept for a peer are those of the peer among the
/// supported ones.
pub proof fn lemma_addrs_of_supported(s: Seq<DiscoveredView>, id: PeerId, ip4: bool)
    ensures
        addrs_of(s, id, ip4) == picked(supported(s), id, ip4),
    decreases s.len(),
{
    if s.len() > 0 {
        let t = s.drop_last();
        let d = s.last();
        lemma_addrs_of_supported(t, id, ip4);
        match spec_parse_discovered_addr(d.peer_id, d.addr) {
            Some(a) => {
                let e = DiscoveredView { peer_id: d.peer_id, addr: a };
                assert(supported(t).push(e).drop_last() =~= supported(t));
            },
            None => {},
        }
    }
}

/// No peer among the supported addresses is beyond a bound on the peers of
/// the list, and every supported address starts with an IP component.
proof fn lemma_supported_bound(s: Seq<DiscoveredView>, bound: PeerId)
    requires
        forall|i: int| 0 <= i < s.len() ==> (#[trigger] s[i]).peer_id <= bound,
    ensures
        forall|i: int| 0 <= i < supported(s).len() ==> (#[trigger] supported(s)[i]).peer_id <= bound,
        all_start_with_ip(supported(s)),
    decreases s.len(),
{
    if s.len() > 0 {
        lemma_supported_bound(s.drop_last(), bound);
    }
}

/// The supported addresses of a list in the order of the peers are in
/// that order too.
proof fn lemma_supported_order(s: Seq<DiscoveredView>)
    requires
        in_peer_order(s),
    ensures
        in_peer_order(supported(s)),
    decreases s.len(),
{
    if s.len() > 0 {
        let t = s.drop_last();
        lemma_supported_order(t);
        lemma_supported_bound(t, s.last().peer_id);
    }
}

/// Picking the addresses of a peer goes through a list part by part.
proof fn lemma_picked_add(a: Seq<DiscoveredView>, b: Seq<DiscoveredView>, id: PeerId, ip4: bool)
    ensures
        picked(a + b, id, ip4) == picked(a, id, ip4) + picked(b, id, ip4),
    decreases b.len(),
{
    if b.len() == 0 {
        assert(a + b =~= a);
        assert(picked(a, id, ip4) + picked(b, id, ip4) =~= picked(a, id, ip4));
    } else {
        lemma_picked_add(a, b.drop_last(), id, ip4);
        assert((a + b).drop_last() =~= a + b.drop_last());
        assert((a + b).last() == b.last());
        if b.last().peer_id == id && (b.last().addr[0] is Ip4) == ip4 {
            assert((picked(a, id, ip4) + picked(b.drop_last(), id, ip4)).push(b.last().addr)
                =~= picked(a, id, ip4) + picked(b.drop_last(), id, ip4).push(b.last().addr));
        }
    }
}

/// Of addresses that all belong to one peer, all are picked for that peer
/// and none for another.
proof fn lemma_picked_of_one_peer(g: Seq<DiscoveredView>, peer: PeerId, id: PeerId, ip4: bool)
    requires
        forall|i: int| 0 <= i < g.len() ==> (#[trigger] g[i]).peer_id == peer,
    ensures
        id != peer ==> picked(g, id, ip4) == Seq::<Seq<Protocol>>::empty(),
        picked(g, peer, ip4) == starting_with(g, ip4),
        starting_with(g, true).len() + starting_with(g, false).len() == g.len(),
    decreases g.len(),
{
    if g.len() > 0 {
        lemma_picked_of_one_peer(g.drop_last(), peer, id, ip4);
    }
}

/// Every address of every group is in the list that the groups give.
proof fn lemma_joined_holds_each(groups: Seq<Seq<DiscoveredView>>)
    ensures
        forall|i: int, j: int|
            0 <= i < groups.len() && 0 <= j < groups[i].len() ==> joined(groups).contains(
                #[trigger] groups[i][j],
            ),
    decreases groups.len(),
{
    if groups.len() > 0 {
        let rest = groups.drop_last();
        let last = groups.last();
        lemma_joined_holds_each(rest);
        assert forall|i: int, j: int| 0 <= i < groups.len() && 0 <= j < groups[i].len() implies joined(
            groups,
        ).contains(#[trigger] groups[i][j]) by {
            if i < groups.len() - 1 {
                assert(joined(rest).contains(rest[i][j]));
                let k = choose|k: int| 0 <= k < joined(rest).len() && joined(rest)[k] == rest[i][j];
                assert(joined(groups)[k] == groups[i][j]);
            } else {
                assert(joined(groups)[joined(rest).len() + j] == groups[i][j]);
            }
        }
    }
}

/// Runs that give a list in the order of the peers belong to peers whose
/// identifiers grow from run to run.
proof fn lemma_runs_in_order(groups: Seq<Seq<DiscoveredView>>)
    requires
        are_runs(groups),
        in_peer_order(joined(groups)),
    ensures
        forall|i: int, j: int|
            0 <= i < j < groups.len() ==> (#[trigger] groups[i])[0].peer_id < (
            #[trigger] groups[j])[0].peer_id,
    decreases groups.len(),
{
    if groups.len() > 1 {
        let rest = groups.drop_last();
        let last = groups.last();
        let whole = joined(groups);
        assert forall|i: int, j: int| 0 <= i <= j < joined(rest).len() implies joined(rest)[i].peer_id
            <= joined(rest)[j].peer_id by {
            assert(whole[i] == joined(rest)[i]);
            assert(whole[j] == joined(rest)[j]);
        }
        assert forall|i: int| 0 < i < rest.len() implies rest[i - 1][0].peer_id != (
        #[trigger] rest[i])[0].peer_id by {
            assert(groups[i - 1][0].peer_id != groups[i][0].peer_id);
        }
        assert forall|i: int| 0 <= i < rest.len() implies is_run(#[trigger] rest[i]) by {
            assert(is_run(groups[i]));
        }
        lemma_runs_in_order(rest);
        let before = rest.last();
        assert(is_run(groups[groups.len() - 2]));
        assert(is_run(groups[groups.len() - 1]));
        let at = joined(rest.drop_last()).len() as int;
        assert(joined(rest)[at] == before[0]);
        assert(whole[at] == before[0]);
        assert(whole[joined(rest).len() as int] == last[0]);
        assert(before[0].peer_id <= last[0].peer_id);
        assert(groups[groups.len() - 2][0].peer_id != groups[groups.len() - 1][0].peer_id);
        assert forall|i: int, j: int| 0 <= i < j < groups.len() implies (#[trigger] groups[i])[0].peer_id
            < (#[trigger] groups[j])[0].peer_id by {
            if j < groups.len() - 1 {
                assert(rest[i][0].peer_id < rest[j][0].peer_id);
            } else if i < groups.len() - 2 {
                assert(rest[i][0].peer_id < rest[rest.len() - 1][0].peer_id);
            }
        }
    }
}

/// In a list that is given by runs of different peers, the addresses of a
/// peer are those of its run, and a peer without a run has none.
proof fn lemma_picked_joined(groups: Seq<Seq<DiscoveredView>>, id: PeerId, ip4: bool)
    requires
        forall|i: int| 0 <= i < groups.len() ==> is_run(#[trigger] groups[i]),
        forall|i: int, j: int|
            0 <= i < j < groups.len() ==> (#[trigger] groups[i])[0].peer_id != (
            #[trigger] groups[j])[0].peer_id,
    ensures
        forall|i: int|
            0 <= i < groups.len() && (#[trigger] groups[i])[0].peer_id == id ==> picked(
                joined(groups),
                id,
                ip4,
            ) == starting_with(groups[i], ip4),
        (forall|i: int| 0 <= i < groups.len() ==> (#[trigger] groups[i])[0].peer_id != id) ==> picked(
            joined(groups),
            id,
            ip4,
        ) == Seq::<Seq<Protocol>>::empty(),
    decreases groups.len(),
{
    if groups.len() > 0 {
        let rest = groups.drop_last();
        let last = groups.last();
        assert forall|i: int| 0 <= i < rest.len() implies is_run(#[trigger] rest[i]) by {
            assert(is_run(groups[i]));
        }
        assert forall|i: int, j: int| 0 <= i < j < rest.len() implies (#[trigger] rest[i])[0].peer_id != (
        #[trigger] rest[j])[0].peer_id by {
            assert(groups[i][0].peer_id != groups[j][0].peer_id);
        }
        lemma_picked_joined(rest, id, ip4);
        lemma_picked_add(joined(rest), last, id, ip4);
        assert(is_run(groups[groups.len() - 1]));
        lemma_picked_of_one_peer(last, last[0].peer_id, id, ip4);
        if last[0].peer_id == id {
            assert forall|i: int| 0 <= i < rest.len() implies (#[trigger] rest[i])[0].peer_id != id by {
                assert(groups[i][0].peer_id != groups[groups.len() - 1][0].peer_id);
            }
            assert(picked(joined(groups), id, ip4) =~= starting_with(last, ip4));
            assert forall|i: int| 0 <= i < groups.len() && (#[trigger] groups[i])[0].peer_id
                == id implies picked(joined(groups), id, ip4) == starting_with(groups[i], ip4) by {
                if i < groups.len() - 1 {
                    assert(groups[i][0].peer_id != groups[groups.len() - 1][0].peer_id);
                }
            }
        } else {
            assert(picked(joined(groups), id, ip4) =~= picked(joined(rest), id, ip4));
            assert forall|i: int| 0 <= i < groups.len() && (#[trigger] groups[i])[0].peer_id
                == id implies picked(joined(groups), id, ip4) == starting_with(groups[i], ip4) by {
                assert(rest[i] == groups[i]);
            }
            if forall|i: int| 0 <= i < groups.len() ==> (#[trigger] groups[i])[0].peer_id != id {
                assert forall|i: int| 0 <= i < rest.len() implies (#[trigger] rest[i])[0].peer_id
                    != id by {
                    assert(groups[i][0].peer_id != id);
                }
            }
        }
    }
}

/// The entries that are made of the runs of the supported addresses of a
/// list, which was brought into the order of the peers without a change to
/// the addresses of any peer, are the grouping of the list.
proof fn lemma_runs_are_grouping(
    peers: Seq<DiscoveredView>,
    sorted: Seq<DiscoveredView>,
    groups: Seq<Seq<DiscoveredView>>,
    infos: Seq<AddrInfoView>,
)
    requires
        in_peer_order(sorted),
        forall|id: PeerId| #[trigger] of_peer(sorted, id) == of_peer(peers, id),
        joined(groups) == supported(sorted),
        are_runs(groups),
        infos.len() == groups.len(),
        forall|i: int| 0 <= i < groups.len() ==> #[trigger] infos[i] == spec_from_iter(groups[i]),
    ensures
        is_grouping(peers, infos),
{
    lemma_supported_order(sorted);
    lemma_runs_in_order(groups);
    assert forall|id: PeerId, ip4: bool| #[trigger]
        addrs_of(peers, id, ip4) == picked(joined(groups), id, ip4) by {
        lemma_addrs_of_peer(peers, id, ip4);
        lemma_addrs_of_peer(sorted, id, ip4);
        assert(of_peer(sorted, id) == of_peer(peers, id));
        lemma_addrs_of_supported(sorted, id, ip4);
    }
    assert forall|i: int| 0 <= i < infos.len() implies {
        &&& has_addr(peers, (#[trigger] infos[i]).id)
        &&& infos[i].ip4 == addrs_of(peers, infos[i].id, true)
        &&& infos[i].ip6 == addrs_of(peers, infos[i].id, false)
    } by {
        let g = groups[i];
        assert(is_run(g));
        assert(infos[i] == spec_from_iter(g));
        assert(g.last().peer_id == g[0].peer_id);
        lemma_picked_joined(groups, g[0].peer_id, true);
        lemma_picked_joined(groups, g[0].peer_id, false);
        lemma_picked_of_one_peer(g, g[0].peer_id, g[0].peer_id, true);
        assert(addrs_of(peers, g[0].peer_id, true) == starting_with(g, true));
        assert(addrs_of(peers, g[0].peer_id, false) == starting_with(g, false));
    }
    assert forall|i: int, j: int| 0 <= i < j < infos.len() implies infos[i].id < infos[j].id by {
        assert(is_run(groups[i]));
        assert(is_run(groups[j]));
        assert(infos[i] == spec_from_iter(groups[i]));
        assert(infos[j] == spec_from_iter(groups[j]));
        assert(groups[i].last().peer_id == groups[i][0].peer_id);
        assert(groups[j].last().peer_id == groups[j][0].peer_id);
    }
    assert forall|id: PeerId| has_addr(peers, id) implies exists|i: int|
        0 <= i < infos.len() && (#[trigger] infos[i]).id == id by {
        lemma_picked_joined(groups, id, true);
        lemma_picked_joined(groups, id, false);
        assert(addrs_of(peers, id, true) == picked(joined(groups), id, true));
        assert(addrs_of(peers, id, false) == picked(joined(groups), id, false));
        if forall|i: int| 0 <= i < groups.len() ==> (#[trigger] groups[i])[0].peer_id != id {
            assert(false);
        }
        let i = choose|i: int| 0 <= i < groups.len() && (#[trigger] groups[i])[0].peer_id == id;
        assert(is_run(groups[i]));
        assert(infos[i] == spec_from_iter(groups[i]));
        assert(groups[i].last().peer_id == groups[i][0].peer_id);
    }
}

/// Parse all discovered addresses and group them by PeerId
///
/// Addresses that are not in a supported format are dropped. The result
/// holds one entry for each peer that is left with an address, in the
/// order of the identifiers; the addresses of a peer keep their order.
pub fn parse_peers(peers: Vec<Discovered>) -> (r: Vec<AddrInfo>)
    ensures
        is_grouping(discovered_view(peers@), infos_view(r@)),
{
    let mut sorted = peers;
    sort_by_peer(&mut sorted);
    let groups = group_by_peer(parse_all(&sorted));
    let ghost runs = groups_view(groups@);
    proof {
        lemma_supported_bound(discovered_view(sorted@), u64::MAX);
        lemma_joined_holds_each(runs);
    }
    let mut infos: Vec<AddrInfo> = Vec::new();
    let mut n: usize = 0;
    while n < groups.len()
        invariant
            n <= groups@.len(),
            runs == groups_view(groups@),
            are_runs(runs),
            all_start_with_ip(joined(runs)),
            forall|i: int, j: int|
                0 <= i < runs.len() && 0 <= j < runs[i].len() ==> joined(runs).contains(
                    #[trigger] runs[i][j],
                ),
            infos@.len() == n,
            forall|i: int| 0 <= i < n ==> #[trigger] infos_view(infos@)[i] == spec_from_iter(runs[i]),
        decreases groups@.len() - n,
    {
        let ghost before = infos_view(infos@);
        proof {
            let g = runs[n as int];
            assert(g == discovered_view(groups@[n as int]@));
            assert(is_run(g));
            assert forall|j: int| 0 <= j < g.len() implies (#[trigger] g[j]).addr.len() > 0 && (
            g[j].addr[0] is Ip4 || g[j].addr[0] is Ip6) by {
                assert(joined(runs).contains(runs[n as int][j]));
            }
        }
        let info = AddrInfo::from_iter(&groups[n]);
        infos.push(info);
        proof {
            assert(infos_view(infos@) =~= before.push(info@));
        }
        n = n + 1;
    }
    proof {
        lemma_runs_are_grouping(
            discovered_view(peers@),
            discovered_view(sorted@),
            runs,
            infos_view(infos@),
        );
    }
    infos
}

} // verus!
