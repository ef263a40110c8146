use vstd::prelude::*;

use crate::port_map::{bindings_map, ContainerPortMap, HostIp, PortKey};
use crate::text::chars_of;
use crate::types::{ContainerInfo, ContainerInfoView, Protocol};

verus! {

/// One entry of a container's `Ports` list, as the daemon reports it.
pub struct PublishedPort {
    /// The host address the port is published on (`IP`), when given.
    pub host_ip: Option<HostIp>,
    /// The host port (`PublicPort`); none for a port that is exposed but
    /// not published.
    pub public_port: Option<u16>,
    /// The protocol (`Type`): `tcp`, `udp`, or another.
    pub kind: String,
}

/// The values of a [`PublishedPort`].
pub struct PublishedPortView {
    pub host_ip: Option<HostIp>,
    pub public_port: Option<u16>,
    pub kind: Seq<char>,
}

impl View for PublishedPort {
    type V = PublishedPortView;

    open spec fn view(&self) -> PublishedPortView {
        PublishedPortView { host_ip: self.host_ip, public_port: self.public_port, kind: self.kind@ }
    }
}

/// One element of the daemon's container list.
pub struct ContainerRecord {
    /// The full container ID (`Id`), empty when not given.
    pub id: String,
    /// The container's names (`Names`), each with a leading `/`.
    pub names: Vec<String>,
    /// The image (`Image`), empty when not given.
    pub image: String,
    /// The container's ports (`Ports`).
    pub ports: Vec<PublishedPort>,
}

/// The values of a [`ContainerRecord`].
pub struct ContainerRecordView {
    pub id: Seq<char>,
    pub names: Seq<Seq<char>>,
    pub image: Seq<char>,
    pub ports: Seq<PublishedPortView>,
}

impl View for ContainerRecord {
    type V = ContainerRecordView;

    open spec fn view(&self) -> ContainerRecordView {
        ContainerRecordView {
            id: self.id@,
            names: self.names@.map_values(|n: String| n@),
            image: self.image@,
            ports: self.ports@.map_values(|p: PublishedPort| p@),
        }
    }
}

/// An unspecified host address (`0.0.0.0` or `::`) means every interface:
/// the binding is stored without a host IP.
pub open spec fn normalized_host_ip(ip: Option<HostIp>) -> Option<HostIp> {
    match ip {
        Some(HostIp::V4(bits)) => if bits == 0 { None } else { ip },
        Some(HostIp::V6(bits)) => if bits == 0 { None } else { ip },
        None => None,
    }
}

/// The protocol that a port's `Type` names, if it is one of ours.
pub open spec fn port_protocol(kind: Seq<char>) -> Option<Protocol> {
    if kind == "tcp"@ {
        Some(Protocol::Tcp)
    } else if kind == "udp"@ {
        Some(Protocol::Udp)
    } else {
        None
    }
}

/// A container's name: its first name without the leading `/`; empty
/// when it has none.
pub open spec fn container_name(names: Seq<Seq<char>>) -> Seq<char> {
    if names.len() == 0 {
        Seq::empty()
    } else if names[0].len() > 0 && names[0][0] == '/' {
        names[0].drop_first()
    } else {
        names[0]
    }
}

/// The container that a record describes.
pub open spec fn record_info(record: ContainerRecordView) -> ContainerInfoView {
    ContainerInfoView { id: record.id, name: container_name(record.names), image: record.image }
}

/// The binding that a port of a record makes, if it is published over TCP
/// or UDP.
pub open spec fn port_binding(info: ContainerInfoView, port: PublishedPortView) -> Option<(PortKey, ContainerInfoView)> {
    match (port.public_port, port_protocol(port.kind)) {
        (Some(p), Some(proto)) => Some(
            (PortKey { host_ip: normalized_host_ip(port.host_ip), port: p, proto }, info),
        ),
        _ => None,
    }
}

/// The bindings that a record makes, in the order of its ports.
pub open spec fn record_bindings(record: ContainerRecordView) -> Seq<(PortKey, ContainerInfoView)> {
    record.ports.filter_map(|p: PublishedPortView| port_binding(record_info(record), p))
}

/// The bindings that the records make, in order.
pub open spec fn records_bindings(records: Seq<ContainerRecordView>) -> Seq<(PortKey, ContainerInfoView)>
    decreases records.len(),
{
    if records.len() == 0 {
        Seq::empty()
    } else {
        records_bindings(records.drop_last()) + record_bindings(records.last())
    }
}

/// The port map that a container list amounts to: every published TCP or
/// UDP port of every container; where two bind the same key, the later one.
pub open spec fn records_map(records: Seq<ContainerRecordView>) -> Map<PortKey, ContainerInfoView> {
    bindings_map(records_bindings(records))
}

/// The views of `records`, in order.
pub open spec fn record_views(records: Seq<ContainerRecord>) -> Seq<ContainerRecordView> {
    records.map_values(|r: ContainerRecord| r@)
}

/// Only the unspecified addresses (`0.0.0.0` and `::`) become "every
/// interface"; every other host address is kept as it is, so a port
/// published on one address (e.g. `::1` or `127.0.0.1`) stays bound to that
/// address alone. A published TCP or UDP port of a record is bound under its
/// own host address in that case.
pub proof fn lemma_specific_host_ips_are_kept(
    ip: HostIp,
    info: ContainerInfoView,
    port: PublishedPortView,
)
    ensures
        normalized_host_ip(Some(ip)) is None <==> (ip == HostIp::V4(0) || ip == HostIp::V6(0)),
        ip != HostIp::V4(0) && ip != HostIp::V6(0) ==> normalized_host_ip(Some(ip)) == Some(ip),
        normalized_host_ip(None) is None,
        port.host_ip == Some(ip) && ip != HostIp::V4(0) && ip != HostIp::V6(0) ==> (port_binding(info, port)
            matches Some(b) ==> b.0.host_ip == Some(ip) && b.1 == info),
        (port.public_port matches Some(p) && (port.kind == "tcp"@ || port.kind == "udp"@)) <==> port_binding(
            info,
            port,
        ) is Some,
        port_binding(info, port) matches Some(b) ==> Some(b.0.port) == port.public_port,
{
}

/// A container is named by its first name with the one leading `/` that
/// the daemon puts there removed (a name without it is kept as it is), and
/// a port's protocol is read from exactly `tcp` or `udp`.
pub proof fn lemma_record_names_and_protocols(names: Seq<Seq<char>>, name: Seq<char>, kind: Seq<char>)
    ensures
        names.len() > 0 && names[0] == seq!['/'] + name ==> container_name(names) == name,
        names.len() > 0 && (names[0].len() == 0 || names[0][0] != '/') ==> container_name(names) == names[0],
        names.len() == 0 ==> container_name(names) == Seq::<char>::empty(),
        port_protocol("tcp"@) == Some(Protocol::Tcp),
        port_protocol("udp"@) == Some(Protocol::Udp),
        port_protocol(kind) is Some ==> kind == "tcp"@ || kind == "udp"@,
{
    if names.len() > 0 && names[0] == seq!['/'] + name {
        assert(names[0].drop_first() =~= name);
    }
    assert("tcp"@ != "udp"@) by {
        reveal_strlit("tcp");
        reveal_strlit("udp");
        assert("tcp"@[0] != "udp"@[0]);
    }
}

/// A host address with the unspecified address turned into "every
/// interface" (`None`).
pub fn normalize_host_ip(ip: Option<HostIp>) -> (normalized: Option<HostIp>)
    ensures
        normalized == normalized_host_ip(ip),
{
    match ip {
        Some(HostIp::V4(bits)) => if bits == 0 { None } else { ip },
        Some(HostIp::V6(bits)) => if bits == 0 { None } else { ip },
        None => None,
    }
}

/// The protocol named by a port's `Type`, if it is TCP or UDP.
pub fn protocol_of(kind: &String) -> (proto: Option<Protocol>)
    ensures
        proto == port_protocol(kind@),
{
    let tcp = String::from_str("tcp");
    let udp = String::from_str("udp");
    if *kind == tcp {
        Some(Protocol::Tcp)
    } else if *kind == udp {
        Some(Protocol::Udp)
    } else {
        None
    }
}

/// A container's name from its `Names`: the first, without its leading `/`.
pub fn name_of(names: &Vec<String>) -> (name: String)
    ensures
        name@ == container_name(names@.map_values(|n: String| n@)),
{
    let ghost views = names@.map_values(|n: String| n@);
    if names.len() == 0 {
        return String::new();
    }
    let first: &str = names[0].as_str();
    assert(views[0] == first@);
    let chars = chars_of(first);
    if chars.len() > 0 && chars[0] == '/' {
        let rest = first.substring_char(1, chars.len());
        assert(rest@ =~= first@.drop_first());
        String::from_str(rest)
    } else {
        String::from_str(first)
    }
}

/// The container that a record describes.
pub fn info_of(record: &ContainerRecord) -> (info: ContainerInfo)
    ensures
        info@ == record_info(record@),
{
    ContainerInfo { id: record.id.clone(), name: name_of(&record.names), image: record.image.clone() }
}

/// The port map that a daemon's container list amounts to.
pub fn port_map_from_records(records: &Vec<ContainerRecord>) -> (map: ContainerPortMap)
    ensures
        map@ == records_map(record_views(records@)),
{
    let ghost views = record_views(records@);
    let mut map = ContainerPortMap::new();
    let ghost mut done: Seq<(PortKey, ContainerInfoView)> = Seq::empty();
    let mut i: usize = 0;
    while i < records.len()
        invariant
            i <= records@.len(),
            views == record_views(records@),
            done == records_bindings(views.take(i as int)),
            map@ == bindings_map(done),
        decreases records@.len() - i,
    {
        let record = &records[i];
        let info = info_of(record);
        let ghost rv = views[i as int];
        let ghost ports = rv.ports;
        let ghost f = |p: PublishedPortView| port_binding(record_info(rv), p);
        assert(rv == record@);
        let ghost start = done;
        let mut j: usize = 0;
        while j < record.ports.len()
            invariant
                j <= record.ports@.len(),
                rv == record@,
                ports == rv.ports,
                f == (|p: PublishedPortView| port_binding(record_info(rv), p)),
                info@ == record_info(rv),
                done == start + ports.take(j as int).filter_map(f),
                map@ == bindings_map(done),
            decreases record.ports@.len() - j,
        {
            let port = &record.ports[j];
            proof {
                assert(ports[j as int] == port@);
                ports.lemma_filter_map_take_succ(f, j as int);
            }
            if let Some(p) = port.public_port {
                if let Some(proto) = protocol_of(&port.kind) {
                    let key = PortKey { host_ip: normalize_host_ip(port.host_ip), port: p, proto };
                    map.insert(key, info.clone());
                    proof {
                        let b = (key, info@);
                        assert(f(ports[j as int]) == Some(b));
                        assert(start + ports.take(j + 1).filter_map(f) =~= done + seq![b]);
                        assert((done + seq![b]).drop_last() =~= done);
                        assert((done + seq![b]).last() == b);
                        done = done + seq![b];
                    }
                }
            }
            proof {
                if port.public_port is None || port_protocol(port.kind@) is None {
                    assert(f(ports[j as int]) is None);
                    assert(start + ports.take(j + 1).filter_map(f) =~= done);
                }
            }
            j = j + 1;
        }
        proof {
            assert(ports.take(ports.len() as int) =~= ports);
            assert(views.take(i + 1).drop_last() =~= views.take(i as int));
            assert(views.take(i + 1).last() == rv);
        }
        i = i + 1;
    }
    assert(views.take(i as int) =~= views);
    map
}

} // verus!
