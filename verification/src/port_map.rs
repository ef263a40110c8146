use vstd::prelude::*;

use crate::types::{ContainerInfo, ContainerInfoView, Protocol};

verus! {

/// A host IP address: IPv4 or IPv6, by its address bits (most significant
/// first). As for `std::net::IpAddr`, an IPv4 address and its IPv6 mapped
/// form are different addresses.
#[derive(Debug, Clone, Copy, PartialEq, Eq, Hash, Structural)]
pub enum HostIp {
    V4(u32),
    V6(u128),
}

impl HostIp {
    /// The IPv4 address `a.b.c.d`.
    pub fn v4(a: u8, b: u8, c: u8, d: u8) -> (ip: HostIp)
        ensures
            ip == HostIp::V4((a * 0x1000000 + b * 0x10000 + c * 0x100 + d) as u32),
    {
        HostIp::V4(((a as u32) * 0x1000000) + ((b as u32) * 0x10000) + ((c as u32) * 0x100) + (d as u32))
    }
}

/// A local socket: host IP and port.
#[derive(Debug, Clone, Copy, PartialEq, Eq, Hash, Structural)]
pub struct SocketAddress {
    pub ip: HostIp,
    pub port: u16,
}

/// A published binding: host IP (`None` when the daemon reported an
/// unspecified address, i.e. all interfaces), host port and protocol.
#[derive(Debug, Clone, Copy, PartialEq, Eq, Hash, Structural)]
pub struct PortKey {
    pub host_ip: Option<HostIp>,
    pub port: u16,
    pub proto: Protocol,
}

/// The map that a sequence of bindings holds: a later binding of a key
/// replaces an earlier one.
pub open spec fn bindings_map(bindings: Seq<(PortKey, ContainerInfoView)>) -> Map<PortKey, ContainerInfoView>
    decreases bindings.len(),
{
    if bindings.len() == 0 {
        Map::empty()
    } else {
        bindings_map(bindings.drop_last()).insert(bindings.last().0, bindings.last().1)
    }
}

/// No key is bound twice.
pub open spec fn keys_distinct(bindings: Seq<(PortKey, ContainerInfoView)>) -> bool {
    forall|i: int, j: int|
        0 <= i < bindings.len() && 0 <= j < bindings.len() && i != j ==> (#[trigger] bindings[i]).0
            != (#[trigger] bindings[j]).0
}

/// Maps `(host_ip, host_port, protocol)` to container info.
pub struct ContainerPortMap {
    bindings: Vec<(PortKey, ContainerInfo)>,
}

impl ContainerPortMap {
    /// The bindings as they are stored, by their views.
    pub closed spec fn binding_views(&self) -> Seq<(PortKey, ContainerInfoView)> {
        self.bindings@.map_values(|b: (PortKey, ContainerInfo)| (b.0, b.1@))
    }

    #[verifier::type_invariant]
    closed spec fn well_formed(&self) -> bool {
        keys_distinct(self.binding_views())
    }
}

impl View for ContainerPortMap {
    type V = Map<PortKey, ContainerInfoView>;

    closed spec fn view(&self) -> Map<PortKey, ContainerInfoView> {
        bindings_map(self.binding_views())
    }
}

proof fn lemma_bindings_map(bindings: Seq<(PortKey, ContainerInfoView)>)
    requires
        keys_distinct(bindings),
    ensures
        bindings_map(bindings).dom().finite(),
        bindings_map(bindings).dom().len() == bindings.len(),
        forall|k: PortKey|
            #![trigger bindings_map(bindings).contains_key(k)]
            bindings_map(bindings).contains_key(k) <==> exists|i: int|
                0 <= i < bindings.len() && (#[trigger] bindings[i]).0 == k,
        forall|i: int|
            0 <= i < bindings.len() ==> bindings_map(bindings)[(#[trigger] bindings[i]).0]
                == bindings[i].1,
    decreases bindings.len(),
{
    if bindings.len() > 0 {
        let rest = bindings.drop_last();
        assert(keys_distinct(rest));
        lemma_bindings_map(rest);
        let last = bindings.last();
        assert(!bindings_map(rest).contains_key(last.0)) by {
            if bindings_map(rest).contains_key(last.0) {
                let i = choose|i: int| 0 <= i < rest.len() && (#[trigger] rest[i]).0 == last.0;
                assert(bindings[i] == rest[i]);
            }
        }
        assert forall|k: PortKey|
            #![trigger bindings_map(bindings).contains_key(k)]
            bindings_map(bindings).contains_key(k) implies exists|i: int|
                0 <= i < bindings.len() && (#[trigger] bindings[i]).0 == k by {
            if k == last.0 {
                assert(bindings[bindings.len() - 1].0 == k);
            } else {
                let i = choose|i: int| 0 <= i < rest.len() && (#[trigger] rest[i]).0 == k;
                assert(bindings[i] == rest[i]);
            }
        }
        assert forall|k: PortKey|
            #![trigger bindings_map(bindings).contains_key(k)]
            (exists|i: int| 0 <= i < bindings.len() && (#[trigger] bindings[i]).0 == k)
                implies bindings_map(bindings).contains_key(k) by {
            let i = choose|i: int| 0 <= i < bindings.len() && (#[trigger] bindings[i]).0 == k;
            if i < bindings.len() - 1 {
                assert(rest[i] == bindings[i]);
            }
        }
        assert forall|i: int| 0 <= i < bindings.len() implies bindings_map(bindings)[(
        #[trigger] bindings[i]).0] == bindings[i].1 by {
            if i < bindings.len() - 1 {
                assert(rest[i] == bindings[i]);
            }
        }
    }
}


/// A read gives back what the last write of the key wrote, and a write
/// leaves every other key as it was: what [`ContainerPortMap::get`] returns
/// after [`ContainerPortMap::insert`].
pub proof fn lemma_read_after_write(
    map: Map<PortKey, ContainerInfoView>,
    key: PortKey,
    info: ContainerInfoView,
    other: PortKey,
)
    ensures
        map.insert(key, info).contains_key(key),
        map.insert(key, info)[key] == info,
        other != key ==> (map.insert(key, info).contains_key(other) <==> map.contains_key(other)),
        other != key && map.contains_key(other) ==> map.insert(key, info)[other] == map[other],
{
}

proof fn lemma_binding_views_push(bindings: Seq<(PortKey, ContainerInfo)>, b: (PortKey, ContainerInfo))
    ensures
        bindings.push(b).map_values(|b: (PortKey, ContainerInfo)| (b.0, b.1@)) =~= bindings.map_values(
            |b: (PortKey, ContainerInfo)| (b.0, b.1@),
        ).push((b.0, b.1@)),
{
}

impl ContainerPortMap {
    /// An empty map.
    pub fn new() -> (map: ContainerPortMap)
        ensures
            map@ == Map::<PortKey, ContainerInfoView>::empty(),
    {
        let map = ContainerPortMap { bindings: Vec::new() };
        assert(map.binding_views() =~= Seq::empty());
        map
    }

    /// The number of bound keys.
    pub fn len(&self) -> (n: usize)
        ensures
            n == self@.len(),
    {
        proof {
            use_type_invariant(self);
            lemma_bindings_map(self.binding_views());
        }
        self.bindings.len()
    }

    /// The position of `key` among the stored bindings, if it is bound.
    fn position(&self, key: &PortKey) -> (pos: Option<usize>)
        ensures
            match pos {
                Some(i) => i < self.bindings@.len() && self.bindings@[i as int].0 == *key,
                None => forall|i: int| 0 <= i < self.bindings@.len() ==> (#[trigger] self.bindings@[i]).0 != *key,
            },
    {
        let mut i: usize = 0;
        while i < self.bindings.len()
            invariant
                i <= self.bindings@.len(),
                forall|j: int| 0 <= j < i ==> (#[trigger] self.bindings@[j]).0 != *key,
            decreases self.bindings@.len() - i,
        {
            if self.bindings[i].0 == *key {
                return Some(i);
            }
            i = i + 1;
        }
        None
    }

    /// The container bound to `key`, if any.
    pub fn get(&self, key: &PortKey) -> (found: Option<&ContainerInfo>)
        ensures
            found is Some <==> self@.contains_key(*key),
            found matches Some(info) ==> info@ == self@[*key],
    {
        proof {
            use_type_invariant(self);
            lemma_bindings_map(self.binding_views());
        }
        match self.position(key) {
            Some(i) => {
                proof {
                    assert(self.binding_views()[i as int].0 == *key);
                }
                Some(&self.bindings[i].1)
            },
            None => {
                proof {
                    assert forall|j: int| 0 <= j < self.binding_views().len() implies (
                    #[trigger] self.binding_views()[j]).0 != *key by {
                        assert(self.binding_views()[j].0 == self.bindings@[j].0);
                    }
                }
                None
            },
        }
    }

    /// Bind `key` to `info`, replacing and returning what it was bound to.
    pub fn insert(&mut self, key: PortKey, info: ContainerInfo) -> (previous: Option<ContainerInfo>)
        ensures
            final(self)@ == old(self)@.insert(key, info@),
            previous is Some <==> old(self)@.contains_key(key),
            previous matches Some(p) ==> p@ == old(self)@[key],
    {
        proof {
            use_type_invariant(&*self);
            lemma_bindings_map(self.binding_views());
        }
        let ghost old_views = self.binding_views();
        let ghost info_view = info@;
        match self.position(&key) {
            Some(i) => {
                let previous = self.bindings[i].1.clone();
                let ghost new_bindings = self.bindings@.update(i as int, (key, info));
                let ghost new_views = new_bindings.map_values(|b: (PortKey, ContainerInfo)| (b.0, b.1@));
                proof {
                    assert(new_views =~= old_views.update(i as int, (key, info_view)));
                    assert(old_views[i as int].0 == key);
                    assert(keys_distinct(new_views));
                    lemma_bindings_map(new_views);
                    assert(bindings_map(new_views) =~= bindings_map(old_views).insert(key, info_view)) by {
                        assert forall|k: PortKey| #[trigger] bindings_map(new_views).contains_key(k)
                            <==> bindings_map(old_views).insert(key, info_view).contains_key(k) by {
                            if bindings_map(old_views).contains_key(k) {
                                let j = choose|j: int| 0 <= j < old_views.len() && (#[trigger] old_views[j]).0 == k;
                                assert(new_views[j].0 == k);
                            }
                            if bindings_map(new_views).contains_key(k) {
                                let j = choose|j: int| 0 <= j < new_views.len() && (#[trigger] new_views[j]).0 == k;
                                assert(old_views[j].0 == k);
                            }
                        }
                        assert forall|k: PortKey| #[trigger] bindings_map(new_views).contains_key(k)
                            implies bindings_map(new_views)[k] == bindings_map(old_views).insert(key, info_view)[k] by {
                            let j = choose|j: int| 0 <= j < new_views.len() && (#[trigger] new_views[j]).0 == k;
                            assert(old_views[j].0 == k);
                        }
                    }
                }
                let mut bindings: Vec<(PortKey, ContainerInfo)> = Vec::new();
                std::mem::swap(&mut bindings, &mut self.bindings);
                bindings.set(i, (key, info));
                assert(bindings@ == new_bindings);
                assert(bindings@.map_values(|b: (PortKey, ContainerInfo)| (b.0, b.1@)) =~= new_views);
                self.bindings = bindings;
                Some(previous)
            },
            None => {
                proof {
                    lemma_binding_views_push(self.bindings@, (key, info));
                    assert forall|j: int| 0 <= j < old_views.len() implies (#[trigger] old_views[j]).0 != key by {
                        assert(old_views[j].0 == self.bindings@[j].0);
                    }
                }
                let mut bindings: Vec<(PortKey, ContainerInfo)> = Vec::new();
                std::mem::swap(&mut bindings, &mut self.bindings);
                bindings.push((key, info));
                proof {
                    let views = bindings@.map_values(|b: (PortKey, ContainerInfo)| (b.0, b.1@));
                    assert(views =~= old_views.push((key, info_view)));
                    assert(keys_distinct(views));
                }
                self.bindings = bindings;
                proof {
                    let views = self.binding_views();
                    assert(views =~= old_views.push((key, info_view)));
                    assert(views.drop_last() =~= old_views);
                    assert(!bindings_map(old_views).contains_key(key));
                }
                None
            },
        }
    }
}

impl ContainerPortMap {
    /// Bind every key of `other` as `other` binds it, replacing earlier
    /// bindings of the same keys.
    pub fn extend(&mut self, other: ContainerPortMap)
        ensures
            final(self)@ == old(self)@.union_prefer_right(other@),
    {
        proof {
            use_type_invariant(&other);
        }
        let ghost start = self@;
        let ghost other_views = other.binding_views();
        let mut i: usize = 0;
        while i < other.bindings.len()
            invariant
                i <= other.bindings@.len(),
                other_views == other.binding_views(),
                self@ == start.union_prefer_right(bindings_map(other_views.take(i as int))),
            decreases other.bindings@.len() - i,
        {
            let key = other.bindings[i].0;
            let info = other.bindings[i].1.clone();
            proof {
                assert(other_views.take(i + 1).drop_last() =~= other_views.take(i as int));
                assert(other_views[i as int] == (key, info@));
            }
            self.insert(key, info);
            proof {
                assert(self@ =~= start.union_prefer_right(bindings_map(other_views.take(i + 1))));
            }
            i = i + 1;
        }
        assert(other_views.take(i as int) =~= other_views);
    }

    /// The bindings, each once, in no promised order.
    pub fn entries(&self) -> (entries: &[(PortKey, ContainerInfo)])
        ensures
            self@.dom().finite(),
            entries@.len() == self@.len(),
            forall|i: int|
                0 <= i < entries@.len() ==> self@.contains_key((#[trigger] entries@[i]).0)
                    && self@[entries@[i].0] == entries@[i].1@,
            forall|i: int, j: int|
                0 <= i < entries@.len() && 0 <= j < entries@.len() && i != j ==> (
                #[trigger] entries@[i]).0 != (#[trigger] entries@[j]).0,
    {
        proof {
            use_type_invariant(self);
            lemma_bindings_map(self.binding_views());
            assert forall|i: int| 0 <= i < self.bindings@.len() implies self@.contains_key(
                (#[trigger] self.bindings@[i]).0,
            ) && self@[self.bindings@[i].0] == self.bindings@[i].1@ by {
                assert(self.binding_views()[i].0 == self.bindings@[i].0);
            }
            assert forall|i: int, j: int|
                0 <= i < self.bindings@.len() && 0 <= j < self.bindings@.len() && i != j implies (
            #[trigger] self.bindings@[i]).0 != (#[trigger] self.bindings@[j]).0 by {
                assert(self.binding_views()[i].0 == self.bindings@[i].0);
                assert(self.binding_views()[j].0 == self.bindings@[j].0);
            }
        }
        self.bindings.as_slice()
    }
}

} // verus!
