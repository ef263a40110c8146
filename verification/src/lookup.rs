use vstd::prelude::*;

use crate::port_map::{ContainerPortMap, PortKey, SocketAddress};
use crate::types::{container_text, ContainerInfo, ContainerInfoView, Protocol};

verus! {

/// Result of matching a socket against published container port bindings.
#[derive(Debug, Clone, Copy, PartialEq, Eq, Hash)]
pub enum PublishedContainerMatch<'a> {
    /// Exactly one container binding matched the socket.
    Match(&'a ContainerInfo),
    /// No published container binding matched the socket.
    NotFound,
    /// Multiple distinct published bindings matched and no safe choice exists.
    Ambiguous,
}

/// What a match result says, by the view of the matched container.
pub enum MatchView {
    Match(ContainerInfoView),
    NotFound,
    Ambiguous,
}

impl<'a> View for PublishedContainerMatch<'a> {
    type V = MatchView;

    open spec fn view(&self) -> MatchView {
        match self {
            PublishedContainerMatch::Match(info) => MatchView::Match(info@),
            PublishedContainerMatch::NotFound => MatchView::NotFound,
            PublishedContainerMatch::Ambiguous => MatchView::Ambiguous,
        }
    }
}

/// How a match result is shown.
pub open spec fn match_text(found: MatchView) -> Seq<char> {
    match found {
        MatchView::Match(info) => container_text(info),
        MatchView::NotFound => "no matching container"@,
        MatchView::Ambiguous => "ambiguous match"@,
    }
}

impl<'a> PublishedContainerMatch<'a> {
    /// The matched container as it is shown, `no matching container`, or
    /// `ambiguous match`.
    pub fn to_display_string(&self) -> (text: String)
        ensures
            text@ == match_text(self@),
    {
        match self {
            PublishedContainerMatch::Match(info) => info.to_display_string(),
            PublishedContainerMatch::NotFound => String::from_str("no matching container"),
            PublishedContainerMatch::Ambiguous => String::from_str("ambiguous match"),
        }
    }
}

/// Whether the binding `key` publishes `port` over `proto`, on any host IP.
pub open spec fn binds_port(key: PortKey, port: u16, proto: Protocol) -> bool {
    key.port == port && key.proto == proto
}

/// Some binding of the map publishes `port` over `proto`.
pub open spec fn port_is_bound(map: Map<PortKey, ContainerInfoView>, port: u16, proto: Protocol) -> bool {
    exists|k: PortKey| #[trigger] map.contains_key(k) && binds_port(k, port, proto)
}

/// Every binding of the map that publishes `port` over `proto` belongs to
/// the same container.
pub open spec fn port_owner_unique(
    map: Map<PortKey, ContainerInfoView>,
    port: u16,
    proto: Protocol,
) -> bool {
    forall|k1: PortKey, k2: PortKey|
        #![trigger map.contains_key(k1), map.contains_key(k2)]
        map.contains_key(k1) && binds_port(k1, port, proto) && map.contains_key(k2) && binds_port(
            k2,
            port,
            proto,
        ) ==> map[k1] == map[k2]
}

/// The match by `(port, proto)` alone: the one container that the port's
/// bindings belong to, none when no binding publishes it, ambiguous when
/// they belong to different containers.
pub open spec fn unique_match(map: Map<PortKey, ContainerInfoView>, port: u16, proto: Protocol) -> MatchView {
    if !port_is_bound(map, port, proto) {
        MatchView::NotFound
    } else if port_owner_unique(map, port, proto) {
        MatchView::Match(map[choose|k: PortKey| #[trigger] map.contains_key(k) && binds_port(k, port, proto)])
    } else {
        MatchView::Ambiguous
    }
}

/// The binding of `socket`'s own IP and port.
pub open spec fn exact_key(socket: SocketAddress, proto: Protocol) -> PortKey {
    PortKey { host_ip: Some(socket.ip), port: socket.port, proto }
}

/// The binding of `socket`'s port on all interfaces.
pub open spec fn wildcard_key(socket: SocketAddress, proto: Protocol) -> PortKey {
    PortKey { host_ip: None, port: socket.port, proto }
}

/// The container that published `socket`: the exact binding first, then
/// the wildcard one, then (with `allow_proxy_fallback`) the unique binding
/// of the port on any IP.
pub open spec fn published_match(
    map: Map<PortKey, ContainerInfoView>,
    socket: SocketAddress,
    proto: Protocol,
    allow_proxy_fallback: bool,
) -> MatchView {
    if map.contains_key(exact_key(socket, proto)) {
        MatchView::Match(map[exact_key(socket, proto)])
    } else if map.contains_key(wildcard_key(socket, proto)) {
        MatchView::Match(map[wildcard_key(socket, proto)])
    } else if allow_proxy_fallback {
        unique_match(map, socket.port, proto)
    } else {
        MatchView::NotFound
    }
}

/// Match a local socket against known published container bindings.
///
/// Exact `(host_ip, port, proto)` matches win first. If the daemon reported an
/// unspecified host IP (stored as `None`), the wildcard binding is used next.
/// For known proxy/helper processes, callers may enable `allow_proxy_fallback`
/// to accept a unique `(port, proto)` match when the proxy socket address does
/// not line up with the published host IP.
pub fn lookup_published_container<'a>(
    container_map: &'a ContainerPortMap,
    socket: SocketAddress,
    proto: Protocol,
    allow_proxy_fallback: bool,
) -> (found: PublishedContainerMatch<'a>)
    ensures
        found@ == published_match(container_map@, socket, proto, allow_proxy_fallback),
{
    let exact = PortKey { host_ip: Some(socket.ip), port: socket.port, proto };
    if let Some(container) = container_map.get(&exact) {
        return PublishedContainerMatch::Match(container);
    }
    let wildcard = PortKey { host_ip: None, port: socket.port, proto };
    if let Some(container) = container_map.get(&wildcard) {
        return PublishedContainerMatch::Match(container);
    }
    if allow_proxy_fallback {
        return unique_published_container(container_map, socket.port, proto);
    }
    PublishedContainerMatch::NotFound
}

/// The container that every binding of `(port, proto)` belongs to, on any
/// host IP: `NotFound` when there is none, `Ambiguous` when the bindings
/// belong to different containers.
pub fn unique_published_container<'a>(
    container_map: &'a ContainerPortMap,
    port: u16,
    proto: Protocol,
) -> (found: PublishedContainerMatch<'a>)
    ensures
        found@ == unique_match(container_map@, port, proto),
{
    let entries = container_map.entries();
    let ghost map = container_map@;
    let mut first: Option<usize> = None;
    let mut all_same = true;
    let mut i: usize = 0;
    while i < entries.len()
        invariant
            i <= entries@.len(),
            map == container_map@,
            map.dom().finite(),
            entries@.len() == map.len(),
            forall|i: int, j: int|
                0 <= i < entries@.len() && 0 <= j < entries@.len() && i != j ==> (
                #[trigger] entries@[i]).0 != (#[trigger] entries@[j]).0,
            forall|j: int|
                0 <= j < entries@.len() ==> map.contains_key((#[trigger] entries@[j]).0)
                    && map[entries@[j].0] == entries@[j].1@,
            first is None ==> all_same,
            match first {
                None => forall|j: int| 0 <= j < i ==> !binds_port((#[trigger] entries@[j]).0, port, proto),
                Some(f) => f < i && binds_port(entries@[f as int].0, port, proto) && (all_same
                    <==> forall|j: int|
                    0 <= j < i && binds_port((#[trigger] entries@[j]).0, port, proto)
                        ==> entries@[j].1@ == entries@[f as int].1@),
            },
        decreases entries@.len() - i,
    {
        let key = entries[i].0;
        if key.port == port && key.proto == proto {
            match first {
                None => {
                    first = Some(i);
                },
                Some(f) => {
                    if !entries[i].1.same_as(&entries[f].1) {
                        all_same = false;
                    }
                },
            }
        }
        i = i + 1;
    }
    match first {
        None => {
            proof {
                lemma_entries_cover(map, entries@);
            }
            PublishedContainerMatch::NotFound
        },
        Some(f) => {
            proof {
                lemma_entries_cover(map, entries@);
                assert(map.contains_key(entries@[f as int].0));
                if all_same {
                    assert forall|k1: PortKey, k2: PortKey|
                        map.contains_key(k1) && binds_port(k1, port, proto) && map.contains_key(k2) && binds_port(k2, port, proto)
                        implies map[k1] == map[k2] by {
                        let j1 = choose|j: int| 0 <= j < entries@.len() && (#[trigger] entries@[j]).0 == k1;
                        let j2 = choose|j: int| 0 <= j < entries@.len() && (#[trigger] entries@[j]).0 == k2;
                    }
                    let k = choose|k: PortKey| #[trigger] map.contains_key(k) && binds_port(k, port, proto);
                    let jk = choose|j: int| 0 <= j < entries@.len() && (#[trigger] entries@[j]).0 == k;
                } else {
                    let j = choose|j: int|
                        0 <= j < entries@.len() && binds_port((#[trigger] entries@[j]).0, port, proto)
                            && entries@[j].1@ != entries@[f as int].1@;
                    assert(map.contains_key(entries@[j].0));
                }
            }
            if all_same {
                PublishedContainerMatch::Match(&entries[f].1)
            } else {
                PublishedContainerMatch::Ambiguous
            }
        },
    }
}

/// The exact binding of a socket's own address, port and protocol wins;
/// without one, the binding of the port on every interface (host IP `None`)
/// matches any socket on that port and protocol, IPv4 or IPv6, whether or
/// not the proxy fallback is allowed.
pub proof fn lemma_exact_then_wildcard_binding_matches(
    map: Map<PortKey, ContainerInfoView>,
    socket: SocketAddress,
    proto: Protocol,
    allow_proxy_fallback: bool,
)
    ensures
        ({
            let exact = PortKey { host_ip: Some(socket.ip), port: socket.port, proto };
            let wildcard = PortKey { host_ip: None, port: socket.port, proto };
            &&& map.contains_key(exact) ==> published_match(map, socket, proto, allow_proxy_fallback)
                == MatchView::Match(map[exact])
            &&& !map.contains_key(exact) && map.contains_key(wildcard) ==> published_match(
                map,
                socket,
                proto,
                allow_proxy_fallback,
            ) == MatchView::Match(map[wildcard])
        }),
{
}

/// A socket is only ever matched to a container that publishes the
/// socket's port over the asked protocol: TCP and UDP bindings of the same
/// port never stand in for each other.
pub proof fn lemma_match_publishes_port_and_protocol(
    map: Map<PortKey, ContainerInfoView>,
    socket: SocketAddress,
    proto: Protocol,
    allow_proxy_fallback: bool,
)
    ensures
        published_match(map, socket, proto, allow_proxy_fallback) matches MatchView::Match(info)
            ==> exists|k: PortKey|
            #[trigger] map.contains_key(k) && k.port == socket.port && k.proto == proto && map[k]
                == info,
{
    if !map.contains_key(exact_key(socket, proto)) && !map.contains_key(wildcard_key(socket, proto))
        && allow_proxy_fallback && port_is_bound(map, socket.port, proto) {
        let k = choose|k: PortKey| #[trigger] map.contains_key(k) && binds_port(k, socket.port, proto);
        assert(map.contains_key(k));
    }
}

/// The proxy fallback only answers where the exact and wildcard bindings do
/// not: with it, every match found without it is still found.
pub proof fn lemma_proxy_fallback_keeps_direct_matches(
    map: Map<PortKey, ContainerInfoView>,
    socket: SocketAddress,
    proto: Protocol,
)
    ensures
        published_match(map, socket, proto, false) is Match ==> published_match(map, socket, proto, true)
            == published_match(map, socket, proto, false),
        published_match(map, socket, proto, false) is NotFound ==> published_match(
            map,
            socket,
            proto,
            true,
        ) == unique_match(map, socket.port, proto),
{
}

/// A lookup is ambiguous only when two bindings of the socket's port and
/// protocol belong to different containers.
pub proof fn lemma_ambiguous_means_two_owners(
    map: Map<PortKey, ContainerInfoView>,
    socket: SocketAddress,
    proto: Protocol,
    allow_proxy_fallback: bool,
)
    ensures
        published_match(map, socket, proto, allow_proxy_fallback) is Ambiguous <==> {
            &&& allow_proxy_fallback
            &&& !map.contains_key(exact_key(socket, proto))
            &&& !map.contains_key(wildcard_key(socket, proto))
            &&& exists|k1: PortKey, k2: PortKey|
                #![trigger map.contains_key(k1), map.contains_key(k2)]
                map.contains_key(k1) && map.contains_key(k2) && binds_port(k1, socket.port, proto)
                    && binds_port(k2, socket.port, proto) && map[k1] != map[k2]
        },
{
    if exists|k1: PortKey, k2: PortKey|
        #![trigger map.contains_key(k1), map.contains_key(k2)]
        map.contains_key(k1) && map.contains_key(k2) && binds_port(k1, socket.port, proto)
            && binds_port(k2, socket.port, proto) && map[k1] != map[k2] {
        let (k1, k2) = choose|k1: PortKey, k2: PortKey|
            #![trigger map.contains_key(k1), map.contains_key(k2)]
            map.contains_key(k1) && map.contains_key(k2) && binds_port(k1, socket.port, proto)
                && binds_port(k2, socket.port, proto) && map[k1] != map[k2];
        assert(port_is_bound(map, socket.port, proto));
    }
}

/// Every key of the map is the key of some entry, when the entries are as
/// many as the keys and each is a binding of the map with a distinct key.
proof fn lemma_entries_cover(map: Map<PortKey, ContainerInfoView>, entries: Seq<(PortKey, ContainerInfo)>)
    requires
        map.dom().finite(),
        entries.len() == map.len(),
        forall|j: int|
            0 <= j < entries.len() ==> map.contains_key((#[trigger] entries[j]).0)
                && map[entries[j].0] == entries[j].1@,
        forall|i: int, j: int|
            0 <= i < entries.len() && 0 <= j < entries.len() && i != j ==> (
            #[trigger] entries[i]).0 != (#[trigger] entries[j]).0,
    ensures
        forall|k: PortKey| #[trigger] map.contains_key(k) ==> exists|j: int| 0 <= j < entries.len() && (#[trigger] entries[j]).0 == k,
{
    let keys = entries.map_values(|e: (PortKey, ContainerInfo)| e.0);
    assert(keys.no_duplicates()) by {
        assert forall|i: int, j: int| 0 <= i < keys.len() && 0 <= j < keys.len() && i != j implies keys[i] != keys[j] by {
            assert(keys[i] == entries[i].0);
            assert(keys[j] == entries[j].0);
        }
    }
    keys.unique_seq_to_set();
    assert(keys.to_set().subset_of(map.dom())) by {
        assert forall|k: PortKey| keys.to_set().contains(k) implies map.dom().contains(k) by {
            let i = choose|i: int| 0 <= i < keys.len() && keys[i] == k;
            assert(keys[i] == entries[i].0);
        }
    }
    vstd::set_lib::lemma_subset_equality(keys.to_set(), map.dom());
    assert forall|k: PortKey| #[trigger] map.contains_key(k) implies exists|j: int| 0 <= j < entries.len() && (#[trigger] entries[j]).0 == k by {
        assert(keys.to_set().contains(k));
        let i = choose|i: int| 0 <= i < keys.len() && keys[i] == k;
        assert(keys[i] == entries[i].0);
    }
}

} // verus!
