use vstd::prelude::*;

use crate::text::chars_of;

verus! {

/// Where `DOCKER_HOST` points.
#[derive(Debug, PartialEq, Eq)]
pub enum DockerHost {
    /// `tcp://host:port`: the `host:port` address.
    Tcp(String),
    /// `unix:///path`: the socket path.
    Unix(String),
    /// `npipe:////./pipe/name`: the pipe path.
    NamedPipe(String),
    /// Any other value.
    Unsupported,
}

/// What a [`DockerHost`] says.
pub enum DockerHostView {
    Tcp(Seq<char>),
    Unix(Seq<char>),
    NamedPipe(Seq<char>),
    Unsupported,
}

impl View for DockerHost {
    type V = DockerHostView;

    open spec fn view(&self) -> DockerHostView {
        match self {
            DockerHost::Tcp(a) => DockerHostView::Tcp(a@),
            DockerHost::Unix(p) => DockerHostView::Unix(p@),
            DockerHost::NamedPipe(p) => DockerHostView::NamedPipe(p@),
            DockerHost::Unsupported => DockerHostView::Unsupported,
        }
    }
}

/// `s` begins with `prefix`.
pub open spec fn has_prefix(s: Seq<char>, prefix: Seq<char>) -> bool {
    prefix.len() <= s.len() && s.subrange(0, prefix.len() as int) == prefix
}

/// What a `DOCKER_HOST` value names: the part after its `tcp://`,
/// `unix://` or `npipe://` scheme.
pub open spec fn docker_host(value: Seq<char>) -> DockerHostView {
    if has_prefix(value, "tcp://"@) {
        DockerHostView::Tcp(value.skip(6))
    } else if has_prefix(value, "unix://"@) {
        DockerHostView::Unix(value.skip(7))
    } else if has_prefix(value, "npipe://"@) {
        DockerHostView::NamedPipe(value.skip(8))
    } else {
        DockerHostView::Unsupported
    }
}

/// Whether `chars` begins with `prefix`.
fn starts_with(chars: &Vec<char>, prefix: &str) -> (b: bool)
    ensures
        b == has_prefix(chars@, prefix@),
{
    let p = chars_of(prefix);
    if p.len() > chars.len() {
        return false;
    }
    let mut i: usize = 0;
    while i < p.len()
        invariant
            p@ == prefix@,
            p@.len() <= chars@.len(),
            i <= p@.len(),
            forall|j: int| 0 <= j < i ==> chars@[j] == p@[j],
        decreases p@.len() - i,
    {
        if chars[i] != p[i] {
            assert(chars@.subrange(0, p@.len() as int)[i as int] != p@[i as int]);
            return false;
        }
        i = i + 1;
    }
    assert(chars@.subrange(0, p@.len() as int) =~= p@);
    true
}

/// Read a `DOCKER_HOST` value.
pub fn docker_host_target(value: &str) -> (target: DockerHost)
    ensures
        target@ == docker_host(value@),
{
    let chars = chars_of(value);
    proof {
        reveal_strlit("tcp://");
        reveal_strlit("unix://");
        reveal_strlit("npipe://");
    }
    if starts_with(&chars, "tcp://") {
        DockerHost::Tcp(String::from_str(value.substring_char(6, chars.len())))
    } else if starts_with(&chars, "unix://") {
        DockerHost::Unix(String::from_str(value.substring_char(7, chars.len())))
    } else if starts_with(&chars, "npipe://") {
        DockerHost::NamedPipe(String::from_str(value.substring_char(8, chars.len())))
    } else {
        DockerHost::Unsupported
    }
}

/// The decimal digits of `n`, without leading zeros.
pub open spec fn decimal(n: nat) -> Seq<char>
    decreases n,
{
    if n < 10 {
        seq![digit_char(n)]
    } else {
        decimal(n / 10) + seq![digit_char(n % 10)]
    }
}

/// The character of a decimal digit.
pub open spec fn digit_char(d: nat) -> char {
    if d == 0 { '0' } else if d == 1 { '1' } else if d == 2 { '2' } else if d == 3 { '3' }
    else if d == 4 { '4' } else if d == 5 { '5' } else if d == 6 { '6' } else if d == 7 { '7' }
    else if d == 8 { '8' } else { '9' }
}

/// The character of the decimal digit `d`.
fn digit_text(d: u32) -> (s: &'static str)
    requires
        d < 10,
    ensures
        s@ == seq![digit_char(d as nat)],
{
    proof {
        reveal_strlit("0");
        reveal_strlit("1");
        reveal_strlit("2");
        reveal_strlit("3");
        reveal_strlit("4");
        reveal_strlit("5");
        reveal_strlit("6");
        reveal_strlit("7");
        reveal_strlit("8");
        reveal_strlit("9");
    }
    if d == 0 { "0" } else if d == 1 { "1" } else if d == 2 { "2" } else if d == 3 { "3" }
    else if d == 4 { "4" } else if d == 5 { "5" } else if d == 6 { "6" } else if d == 7 { "7" }
    else if d == 8 { "8" } else { "9" }
}

/// `n` in decimal.
pub fn decimal_text(n: u32) -> (text: String)
    ensures
        text@ == decimal(n as nat),
    decreases n,
{
    if n < 10 {
        String::from_str(digit_text(n))
    } else {
        decimal_text(n / 10).concat(digit_text(n % 10))
    }
}

/// The bytes of `text` in UTF-8.
pub open spec fn utf8(text: Seq<char>) -> Seq<u8> {
    vstd::utf8::encode_utf8(text)
}

/// The well-known daemon sockets for user `uid` whose home directory is
/// `home` (a path as raw bytes), in the order they are tried: rootful
/// Docker, rootless Docker, Docker Desktop, then Podman (rootless, then
/// rootful).
pub open spec fn socket_paths(uid: u32, home: Option<Seq<u8>>) -> Seq<Seq<u8>> {
    let run_user = "/run/user/"@ + decimal(uid as nat);
    let home_paths = match home {
        Some(h) => seq![
            h + utf8("/.docker/desktop/docker.sock"@),
            h + utf8("/.docker/run/docker.sock"@),
        ],
        None => Seq::empty(),
    };
    seq![utf8("/var/run/docker.sock"@), utf8(run_user + "/docker.sock"@)] + home_paths + seq![
        utf8(run_user + "/podman/podman.sock"@),
        utf8("/run/podman/podman.sock"@),
    ]
}

/// The bytes of `text`.
fn text_bytes(text: &str) -> (bytes: Vec<u8>)
    ensures
        bytes@ == utf8(text@),
{
    text.as_bytes_vec()
}

/// `head` followed by the bytes of `tail`.
fn joined_bytes(head: &[u8], tail: &str) -> (bytes: Vec<u8>)
    ensures
        bytes@ == head@ + utf8(tail@),
{
    let tail_bytes = tail.as_bytes();
    let mut bytes: Vec<u8> = Vec::new();
    let mut i: usize = 0;
    while i < head.len()
        invariant
            i <= head@.len(),
            bytes@ == head@.subrange(0, i as int),
        decreases head@.len() - i,
    {
        bytes.push(head[i]);
        proof {
            assert(head@.subrange(0, i + 1) =~= head@.subrange(0, i as int).push(head@[i as int]));
        }
        i = i + 1;
    }
    let mut j: usize = 0;
    while j < tail_bytes.len()
        invariant
            i == head@.len(),
            tail_bytes@ == utf8(tail@),
            j <= tail_bytes@.len(),
            bytes@ == head@ + tail_bytes@.subrange(0, j as int),
        decreases tail_bytes@.len() - j,
    {
        bytes.push(tail_bytes[j]);
        proof {
            assert(tail_bytes@.subrange(0, j + 1) =~= tail_bytes@.subrange(0, j as int).push(
                tail_bytes@[j as int],
            ));
        }
        j = j + 1;
    }
    assert(head@.subrange(0, i as int) =~= head@);
    assert(tail_bytes@.subrange(0, j as int) =~= tail_bytes@);
    bytes
}

/// The well-known daemon socket paths, as raw bytes, in the order they are
/// tried.
pub fn unix_socket_paths(uid: u32, home: Option<&[u8]>) -> (paths: Vec<Vec<u8>>)
    ensures
        paths@.map_values(|p: Vec<u8>| p@) == socket_paths(uid, match home {
            Some(h) => Some(h@),
            None => None,
        }),
{
    let uid_text = decimal_text(uid);
    let mut paths: Vec<Vec<u8>> = Vec::new();
    paths.push(text_bytes("/var/run/docker.sock"));
    let rootless = String::from_str("/run/user/").concat(uid_text.as_str()).concat("/docker.sock");
    paths.push(text_bytes(rootless.as_str()));
    if let Some(h) = home {
        paths.push(joined_bytes(h, "/.docker/desktop/docker.sock"));
        paths.push(joined_bytes(h, "/.docker/run/docker.sock"));
    }
    let podman = String::from_str("/run/user/").concat(uid_text.as_str()).concat("/podman/podman.sock");
    paths.push(text_bytes(podman.as_str()));
    paths.push(text_bytes("/run/podman/podman.sock"));
    proof {
        let home_view = match home {
            Some(h) => Some(h@),
            None => None,
        };
        assert(paths@.map_values(|p: Vec<u8>| p@) =~= socket_paths(uid, home_view));
    }
    paths
}

/// The default named pipes of Docker Desktop and Podman Machine on Windows,
/// in the order they are tried.
pub open spec fn pipe_paths() -> Seq<Seq<char>> {
    seq!["\\\\.\\pipe\\docker_engine"@, "\\\\.\\pipe\\podman-machine-default"@]
}

/// The default named pipes, in the order they are tried.
pub fn default_pipe_paths() -> (paths: Vec<String>)
    ensures
        paths@.map_values(|p: String| p@) == pipe_paths(),
{
    let mut paths: Vec<String> = Vec::new();
    paths.push(String::from_str("\\\\.\\pipe\\docker_engine"));
    paths.push(String::from_str("\\\\.\\pipe\\podman-machine-default"));
    assert(paths@.map_values(|p: String| p@) =~= pipe_paths());
    paths
}

/// A transport a stop request can be sent over.
#[derive(Debug, PartialEq, Eq)]
pub enum StopTarget {
    /// A TCP daemon at this `host:port` address.
    Tcp(String),
    /// A Unix socket at this path (raw bytes).
    Unix(Vec<u8>),
    /// A Windows named pipe at this path.
    Pipe(String),
}

/// What a [`StopTarget`] names.
pub enum StopTargetView {
    Tcp(Seq<char>),
    Unix(Seq<u8>),
    Pipe(Seq<char>),
}

impl View for StopTarget {
    type V = StopTargetView;

    open spec fn view(&self) -> StopTargetView {
        match self {
            StopTarget::Tcp(a) => StopTargetView::Tcp(a@),
            StopTarget::Unix(p) => StopTargetView::Unix(p@),
            StopTarget::Pipe(p) => StopTargetView::Pipe(p@),
        }
    }
}

/// The transports a stop request is tried on, in order: the daemon of a
/// `tcp://` `DOCKER_HOST` first; then, on Unix, the daemon of a `unix://`
/// `DOCKER_HOST` and the well-known `sockets`; on Windows, the daemon of
/// an `npipe://` `DOCKER_HOST` and the default `pipes`.
pub open spec fn stop_target_list(
    host: DockerHostView,
    windows: bool,
    sockets: Seq<Seq<u8>>,
    pipes: Seq<Seq<char>>,
) -> Seq<StopTargetView> {
    let tcp = match host {
        DockerHostView::Tcp(addr) => seq![StopTargetView::Tcp(addr)],
        _ => Seq::empty(),
    };
    let local = if windows {
        (match host {
            DockerHostView::NamedPipe(p) => seq![StopTargetView::Pipe(p)],
            _ => Seq::empty(),
        }) + pipes.map_values(|p: Seq<char>| StopTargetView::Pipe(p))
    } else {
        (match host {
            DockerHostView::Unix(p) => seq![StopTargetView::Unix(utf8(p))],
            _ => Seq::empty(),
        }) + sockets.map_values(|p: Seq<u8>| StopTargetView::Unix(p))
    };
    tcp + local
}

/// Every well-known socket (on Windows, every default pipe) is tried, in
/// order, after the `DOCKER_HOST` daemons, whatever `DOCKER_HOST` names: a
/// 404 from the `DOCKER_HOST` daemon never keeps the other daemons from
/// being asked. Before them stand exactly the `tcp://` host (first) and the
/// platform's own `DOCKER_HOST` daemon, each when `DOCKER_HOST` names it.
pub proof fn lemma_stop_targets_end_with_every_local_daemon(
    host: DockerHostView,
    windows: bool,
    sockets: Seq<Seq<u8>>,
    pipes: Seq<Seq<char>>,
)
    ensures
        ({
            let targets = stop_target_list(host, windows, sockets, pipes);
            let tcp: int = if host is Tcp { 1 } else { 0 };
            let local: int = if (!windows && host is Unix) || (windows && host is NamedPipe) { 1 } else { 0 };
            let tail: int = if windows { pipes.len() as int } else { sockets.len() as int };
            &&& targets.len() == tcp + local + tail
            &&& !windows ==> forall|i: int|
                0 <= i < sockets.len() ==> #[trigger] targets[tcp + local + i] == StopTargetView::Unix(sockets[i])
            &&& windows ==> forall|i: int|
                0 <= i < pipes.len() ==> #[trigger] targets[tcp + local + i] == StopTargetView::Pipe(pipes[i])
            &&& host matches DockerHostView::Tcp(addr) ==> targets[0] == StopTargetView::Tcp(addr)
            &&& !windows ==> (host matches DockerHostView::Unix(p) ==> targets[0] == StopTargetView::Unix(utf8(p)))
            &&& windows ==> (host matches DockerHostView::NamedPipe(p) ==> targets[0] == StopTargetView::Pipe(p))
        }),
{
}

/// The transports a stop request is tried on, in order (see
/// [`stop_target_list`]), from the `DOCKER_HOST` target, the platform, the
/// well-known socket paths and the default pipe paths.
pub fn stop_targets(host: &DockerHost, windows: bool, sockets: Vec<Vec<u8>>, pipes: Vec<String>) -> (targets: Vec<StopTarget>)
    ensures
        targets@.map_values(|t: StopTarget| t@) == stop_target_list(
            host@,
            windows,
            sockets@.map_values(|p: Vec<u8>| p@),
            pipes@.map_values(|p: String| p@),
        ),
{
    let ghost socket_views = sockets@.map_values(|p: Vec<u8>| p@);
    let ghost pipe_views = pipes@.map_values(|p: String| p@);
    let mut targets: Vec<StopTarget> = Vec::new();
    match host {
        DockerHost::Tcp(addr) => targets.push(StopTarget::Tcp(addr.clone())),
        _ => {},
    }
    let ghost head = targets@.map_values(|t: StopTarget| t@);
    if windows {
        match host {
            DockerHost::NamedPipe(p) => targets.push(StopTarget::Pipe(p.clone())),
            _ => {},
        }
        let ghost start = targets@.map_values(|t: StopTarget| t@);
        let n = pipes.len();
        let mut rest = pipes;
        let mut i: usize = 0;
        while rest.len() > 0
            invariant
                pipe_views.len() == n,
                pipe_views.len() == i + rest@.len(),
                forall|j: int| 0 <= j < rest@.len() ==> (#[trigger] rest@[j])@ == pipe_views[i + j],
                targets@.map_values(|t: StopTarget| t@) == start + pipe_views.take(i as int).map_values(
                    |p: Seq<char>| StopTargetView::Pipe(p),
                ),
            decreases rest@.len(),
        {
            let p = rest.remove(0);
            proof {
                assert(p@ == pipe_views[i as int]);
            }
            let ghost before = targets@;
            targets.push(StopTarget::Pipe(p));
            proof {
                assert(targets@ == before.push(StopTarget::Pipe(p)));
                assert(targets@.map_values(|t: StopTarget| t@) =~= before.map_values(|t: StopTarget| t@).push(
                    StopTargetView::Pipe(pipe_views[i as int]),
                ));
                assert(pipe_views.take(i + 1) =~= pipe_views.take(i as int).push(pipe_views[i as int]));
                assert(targets@.map_values(|t: StopTarget| t@) =~= start + pipe_views.take(i + 1).map_values(
                    |p: Seq<char>| StopTargetView::Pipe(p),
                ));
            }
            i = i + 1;
        }
        proof {
            assert(pipe_views.take(i as int) =~= pipe_views);
            assert(targets@.map_values(|t: StopTarget| t@) =~= stop_target_list(host@, windows, socket_views, pipe_views));
        }
    } else {
        match host {
            DockerHost::Unix(p) => targets.push(StopTarget::Unix(p.as_str().as_bytes_vec())),
            _ => {},
        }
        let ghost start = targets@.map_values(|t: StopTarget| t@);
        let n = sockets.len();
        let mut rest = sockets;
        let mut i: usize = 0;
        while rest.len() > 0
            invariant
                socket_views.len() == n,
                socket_views.len() == i + rest@.len(),
                forall|j: int| 0 <= j < rest@.len() ==> (#[trigger] rest@[j])@ == socket_views[i + j],
                targets@.map_values(|t: StopTarget| t@) == start + socket_views.take(i as int).map_values(
                    |p: Seq<u8>| StopTargetView::Unix(p),
                ),
            decreases rest@.len(),
        {
            let p = rest.remove(0);
            proof {
                assert(p@ == socket_views[i as int]);
            }
            let ghost before = targets@;
            targets.push(StopTarget::Unix(p));
            proof {
                assert(targets@ == before.push(StopTarget::Unix(p)));
                assert(targets@.map_values(|t: StopTarget| t@) =~= before.map_values(|t: StopTarget| t@).push(
                    StopTargetView::Unix(socket_views[i as int]),
                ));
                assert(socket_views.take(i + 1) =~= socket_views.take(i as int).push(socket_views[i as int]));
                assert(targets@.map_values(|t: StopTarget| t@) =~= start + socket_views.take(i + 1).map_values(
                    |p: Seq<u8>| StopTargetView::Unix(p),
                ));
            }
            i = i + 1;
        }
        proof {
            assert(socket_views.take(i as int) =~= socket_views);
            assert(targets@.map_values(|t: StopTarget| t@) =~= stop_target_list(host@, windows, socket_views, pipe_views));
        }
    }
    targets
}

} // verus!
