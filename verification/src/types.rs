use vstd::prelude::*;

verus! {

/// Network transport protocol.
#[derive(Debug, Clone, Copy, PartialEq, Eq, PartialOrd, Ord, Hash, Structural)]
pub enum Protocol {
    /// Transmission Control Protocol.
    Tcp,
    /// User Datagram Protocol.
    Udp,
}

/// The name a protocol is shown and serialised under.
pub open spec fn protocol_text(proto: Protocol) -> Seq<char> {
    match proto {
        Protocol::Tcp => "TCP"@,
        Protocol::Udp => "UDP"@,
    }
}

impl Protocol {
    /// The protocol's name: `TCP` or `UDP`.
    pub fn to_display_string(&self) -> (text: String)
        ensures
            text@ == protocol_text(*self),
    {
        match self {
            Protocol::Tcp => String::from_str("TCP"),
            Protocol::Udp => String::from_str("UDP"),
        }
    }
}

/// Metadata about a running container that has published ports.
#[derive(Debug, PartialEq, Eq, Hash)]
pub struct ContainerInfo {
    /// Full container ID (hex string) for API calls, empty when unavailable.
    pub id: String,
    /// Container name (e.g. "backend-postgres-1").
    pub name: String,
    /// Container image (e.g. "postgres:16").
    pub image: String,
}

/// The texts that a [`ContainerInfo`] holds.
pub struct ContainerInfoView {
    pub id: Seq<char>,
    pub name: Seq<char>,
    pub image: Seq<char>,
}

impl View for ContainerInfo {
    type V = ContainerInfoView;

    open spec fn view(&self) -> ContainerInfoView {
        ContainerInfoView { id: self.id@, name: self.name@, image: self.image@ }
    }
}

impl Clone for ContainerInfo {
    fn clone(&self) -> (copy: Self)
        ensures
            copy@ == self@,
    {
        ContainerInfo { id: self.id.clone(), name: self.name.clone(), image: self.image.clone() }
    }
}

/// How a container is shown: its name, followed by its image in
/// parentheses when the image is known.
pub open spec fn container_text(info: ContainerInfoView) -> Seq<char> {
    if info.image.len() == 0 {
        info.name
    } else {
        info.name + " ("@ + info.image + ")"@
    }
}

impl ContainerInfo {
    /// A container record with the given ID, name and image.
    pub fn new(id: &str, name: &str, image: &str) -> (info: ContainerInfo)
        ensures
            info@ == (ContainerInfoView { id: id@, name: name@, image: image@ }),
    {
        ContainerInfo {
            id: String::from_str(id),
            name: String::from_str(name),
            image: String::from_str(image),
        }
    }

    /// Whether two records hold the same ID, name and image.
    pub fn same_as(&self, other: &ContainerInfo) -> (same: bool)
        ensures
            same == (self@ == other@),
    {
        self.id == other.id && self.name == other.name && self.image == other.image
    }

    /// `name (image)`, or the bare name when the image is empty.
    pub fn to_display_string(&self) -> (text: String)
        ensures
            text@ == container_text(self@),
    {
        if self.image.as_str().is_empty() {
            self.name.clone()
        } else {
            self.name.clone().concat(" (").concat(self.image.as_str()).concat(")")
        }
    }
}

} // verus!
