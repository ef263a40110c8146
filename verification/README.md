# nanodock

Detects Docker and Podman containers, maps their published ports to host
sockets, and stops or kills containers through the daemon API.

- `src/` is the verified library (Verus): the port map and socket matching,
  the container-list records, merging the answers of several daemons, the
  order in which daemons are asked for their containers and the transports
  (and their order) a stop is tried on, the stop/kill search and the exact
  requests it sends, socket and pipe paths, `DOCKER_HOST` values and HTTP
  request/response handling. Each public
  function states its result in its `ensures`; the laws that relate
  functions are public proof functions next to them (`lemma_*`).
- `app/` is the unverified layer around it: Unix-socket, named-pipe and TCP transports,
  JSON decoding with serde, the background detection thread, and the
  `Display`/serde forms of the public types.
- `tests/` runs the library on concrete values.
