use vstd::prelude::*;

use crate::port_map::{ContainerPortMap, PortKey};
use crate::text::{chars_of, trim, trim_bounds};
use crate::types::ContainerInfoView;

verus! {



/// A daemon's JSON array body without its outer brackets, when it has both.
pub open spec fn unwrap_brackets(body: Seq<char>) -> Seq<char> {
    if body.len() >= 2 && body[0] == '[' && body.last() == ']' {
        body.subrange(1, body.len() - 1)
    } else {
        body
    }
}

/// The elements of one daemon's JSON array body, as the text between its
/// brackets, trimmed.
pub open spec fn array_inner(body: Seq<char>) -> Seq<char> {
    trim(unwrap_brackets(trim(body)))
}

/// The non-empty element texts of the daemons' bodies, in order.
pub open spec fn array_parts(bodies: Seq<Seq<char>>) -> Seq<Seq<char>> {
    bodies.map_values(|b: Seq<char>| array_inner(b)).filter(|p: Seq<char>| p.len() > 0)
}

/// `parts` joined by commas.
pub open spec fn join_with_commas(parts: Seq<Seq<char>>) -> Seq<char>
    decreases parts.len(),
{
    if parts.len() == 0 {
        Seq::empty()
    } else if parts.len() == 1 {
        parts[0]
    } else {
        join_with_commas(parts.drop_last()) + seq![','] + parts.last()
    }
}

/// The single JSON array that holds the elements of every daemon's array
/// body, or none when no daemon answered.
pub open spec fn merged_bodies(bodies: Seq<Seq<char>>) -> Option<Seq<char>> {
    if bodies.len() == 0 {
        None
    } else {
        Some(seq!['['] + join_with_commas(array_parts(bodies)) + seq![']'])
    }
}

/// The views of `responses`, in order.
pub open spec fn str_views(responses: Seq<&str>) -> Seq<Seq<char>> {
    responses.map_values(|r: &str| r@)
}

proof fn lemma_parts_step(bodies: Seq<Seq<char>>, k: int)
    requires
        0 <= k < bodies.len(),
    ensures
        array_parts(bodies.take(k + 1)) == (if array_inner(bodies[k]).len() > 0 {
            array_parts(bodies.take(k)).push(array_inner(bodies[k]))
        } else {
            array_parts(bodies.take(k))
        }),
{
    let f = |b: Seq<char>| array_inner(b);
    let p = |x: Seq<char>| x.len() > 0;
    assert(bodies.take(k + 1) =~= bodies.take(k).push(bodies[k]));
    assert(bodies.take(k + 1).map_values(f) =~= bodies.take(k).map_values(f).push(f(bodies[k])));
    bodies.take(k).map_values(f).lemma_filter_push(f(bodies[k]), p);
}

proof fn lemma_join_push(parts: Seq<Seq<char>>, part: Seq<char>)
    requires
        part.len() > 0,
    ensures
        join_with_commas(parts.push(part)) == (if parts.len() == 0 {
            part
        } else {
            join_with_commas(parts) + seq![','] + part
        }),
{
    assert(parts.push(part).drop_last() =~= parts);
}

/// Merge the container-list bodies of several daemons into one JSON array.
///
/// Each daemon answers a JSON array; its outer brackets are unwrapped and
/// the elements concatenated so that the caller sees a single flat array.
/// Empty arrays add no element and no comma. Returns `None` when there were
/// no responses at all.
pub fn merge_daemon_response_bodies(responses: &[&str]) -> (merged: Option<String>)
    ensures
        merged matches Some(m) ==> merged_bodies(str_views(responses@)) == Some(m@),
        merged is None ==> merged_bodies(str_views(responses@)) is None,
{
    let ghost bodies = str_views(responses@);
    let mut saw_response = false;
    let mut has_content = false;
    let mut combined = String::from_str("[");
    proof {
        reveal_strlit("[");
        reveal_strlit(",");
    }
    let mut k: usize = 0;
    while k < responses.len()
        invariant
            k <= responses.len(),
            bodies == str_views(responses@),
            saw_response == (k > 0),
            has_content == (array_parts(bodies.take(k as int)).len() > 0),
            combined@ == seq!['['] + join_with_commas(array_parts(bodies.take(k as int))),
            "["@ == seq!['['],
            ","@ == seq![','],
        decreases responses.len() - k,
    {
        let response: &str = responses[k];
        saw_response = true;
        let chars = chars_of(response);
        let (body_start, body_end) = trim_bounds(&chars, 0, chars.len());
        let (inner_start, inner_end) = if body_end - body_start >= 2 && chars[body_start] == '['
            && chars[body_end - 1] == ']' {
            (body_start + 1, body_end - 1)
        } else {
            (body_start, body_end)
        };
        let (start, end) = trim_bounds(&chars, inner_start, inner_end);
        let ghost prev = array_parts(bodies.take(k as int));
        proof {
            lemma_parts_step(bodies, k as int);
            let body = chars@.subrange(body_start as int, body_end as int);
            assert(chars@.subrange(0, chars@.len() as int) =~= chars@);
            assert(body == trim(response@));
            if body.len() >= 2 && body[0] == '[' && body.last() == ']' {
                assert(chars@.subrange(inner_start as int, inner_end as int) =~= body.subrange(
                    1,
                    body.len() - 1,
                ));
            }
            assert(chars@.subrange(inner_start as int, inner_end as int) == unwrap_brackets(body));
            assert(chars@.subrange(start as int, end as int) == array_inner(bodies[k as int]));
        }
        if start < end {
            let inner: &str = response.substring_char(start, end);
            proof {
                lemma_join_push(prev, inner@);
            }
            if has_content {
                combined.append(",");
            }
            has_content = true;
            combined.append(inner);
        }
        k = k + 1;
    }
    if !saw_response {
        return None;
    }
    proof {
        reveal_strlit("]");
        assert(bodies.take(k as int) =~= bodies);
    }
    combined.append("]");
    Some(combined)
}

/// `maps` merged in order: a later map's binding of a key wins.
pub open spec fn merged_maps(maps: Seq<Map<PortKey, ContainerInfoView>>) -> Map<PortKey, ContainerInfoView>
    decreases maps.len(),
{
    if maps.len() == 0 {
        Map::empty()
    } else {
        merged_maps(maps.drop_last()).union_prefer_right(maps.last())
    }
}

/// The views of `maps`, in order.
pub open spec fn map_views(maps: Seq<ContainerPortMap>) -> Seq<Map<PortKey, ContainerInfoView>> {
    maps.map_values(|m: ContainerPortMap| m@)
}

/// Merge the port maps of several daemons into one; none when no daemon
/// answered.
pub fn merge_daemon_responses(responses: Vec<ContainerPortMap>) -> (merged: Option<ContainerPortMap>)
    ensures
        merged is None <==> responses@.len() == 0,
        merged matches Some(m) ==> m@ == merged_maps(map_views(responses@)),
{
    let ghost views = map_views(responses@);
    let saw_response = responses.len() > 0;
    let mut merged = ContainerPortMap::new();
    let mut rest = responses;
    let ghost total = rest@;
    let mut i: usize = 0;
    let n = rest.len();
    while rest.len() > 0
        invariant
            n == total.len(),
            views == map_views(total),
            rest@.len() + i == n,
            forall|j: int| 0 <= j < rest@.len() ==> #[trigger] rest@[j] == total[i + j],
            merged@ == merged_maps(views.take(i as int)),
        decreases rest@.len(),
    {
        let next = rest.remove(0);
        proof {
            assert(next == total[i as int]);
            assert(views.take(i + 1).drop_last() =~= views.take(i as int));
        }
        merged.extend(next);
        i = i + 1;
    }
    if !saw_response {
        return None;
    }
    assert(views.take(i as int) =~= views);
    Some(merged)
}

/// What one daemon query answered.
pub enum DaemonAnswer<T> {
    /// The daemon named by a `tcp://` `DOCKER_HOST`: its answer; none when
    /// `DOCKER_HOST` names no TCP daemon, or it could not be reached.
    Tcp(Option<T>),
    /// On Unix, the daemon named by a `unix://` `DOCKER_HOST`: none when
    /// `DOCKER_HOST` names no Unix socket, else that daemon's answer.
    DockerHostUnix(Option<Option<T>>),
    /// On Windows, the daemon named by an `npipe://` `DOCKER_HOST`: its
    /// answer (none when `DOCKER_HOST` names no pipe, or it could not be
    /// reached); `pipes` default pipes are known.
    DockerHostPipe { answer: Option<T>, pipes: usize },
    /// On Windows, default pipe `index` of `pipes`: its answer.
    DefaultPipe { index: usize, pipes: usize, answer: Option<T> },
}

/// The next daemon query, or the result of the queries.
pub enum DaemonQuery<T> {
    /// Ask the daemon that `DOCKER_HOST` names on this platform: a
    /// `unix://` socket on Unix, an `npipe://` pipe on Windows.
    AskDockerHostLocal,
    /// Ask the daemons on every well-known socket, and merge their answers.
    AskSockets,
    /// Ask the daemon on default pipe `index`.
    AskDefaultPipe(usize),
    /// The queries are over with this result.
    Finish(Option<T>),
}

/// The order in which daemons are queried for their containers: the
/// `tcp://` `DOCKER_HOST` daemon first. Then, on Unix, the `unix://`
/// `DOCKER_HOST` daemon, whose answer (even a failure) settles the result;
/// without one, every well-known socket. On Windows, the `npipe://`
/// `DOCKER_HOST` daemon when it answers, else the default pipes in order
/// until one answers.
pub open spec fn next_query<T>(answer: DaemonAnswer<T>) -> DaemonQuery<T> {
    match answer {
        DaemonAnswer::Tcp(Some(body)) => DaemonQuery::Finish(Some(body)),
        DaemonAnswer::Tcp(None) => DaemonQuery::AskDockerHostLocal,
        DaemonAnswer::DockerHostUnix(Some(result)) => DaemonQuery::Finish(result),
        DaemonAnswer::DockerHostUnix(None) => DaemonQuery::AskSockets,
        DaemonAnswer::DockerHostPipe { answer: Some(body), pipes } => DaemonQuery::Finish(Some(body)),
        DaemonAnswer::DockerHostPipe { answer: None, pipes } => if pipes > 0 {
            DaemonQuery::AskDefaultPipe(0)
        } else {
            DaemonQuery::Finish(None)
        },
        DaemonAnswer::DefaultPipe { index, pipes, answer: Some(body) } => DaemonQuery::Finish(Some(body)),
        DaemonAnswer::DefaultPipe { index, pipes, answer: None } => if index + 1 < pipes {
            DaemonQuery::AskDefaultPipe((index + 1) as usize)
        } else {
            DaemonQuery::Finish(None)
        },
    }
}

/// Decide, from what the last daemon query answered, what to ask next or
/// what the queries yield. The first query is always the `tcp://`
/// `DOCKER_HOST` daemon; after [`DaemonQuery::AskSockets`], the answers are
/// merged with [`merge_daemon_response_bodies`] or
/// [`merge_daemon_responses`].
pub fn next_daemon_query<T>(answer: DaemonAnswer<T>) -> (query: DaemonQuery<T>)
    ensures
        query == next_query(answer),
{
    match answer {
        DaemonAnswer::Tcp(Some(body)) => DaemonQuery::Finish(Some(body)),
        DaemonAnswer::Tcp(None) => DaemonQuery::AskDockerHostLocal,
        DaemonAnswer::DockerHostUnix(Some(result)) => DaemonQuery::Finish(result),
        DaemonAnswer::DockerHostUnix(None) => DaemonQuery::AskSockets,
        DaemonAnswer::DockerHostPipe { answer: Some(body), pipes: _ } => DaemonQuery::Finish(Some(body)),
        DaemonAnswer::DockerHostPipe { answer: None, pipes } => if pipes > 0 {
            DaemonQuery::AskDefaultPipe(0)
        } else {
            DaemonQuery::Finish(None)
        },
        DaemonAnswer::DefaultPipe { index: _, pipes: _, answer: Some(body) } => DaemonQuery::Finish(Some(body)),
        DaemonAnswer::DefaultPipe { index, pipes, answer: None } => if pipes > 0 && index < pipes - 1 {
            DaemonQuery::AskDefaultPipe(index + 1)
        } else {
            DaemonQuery::Finish(None)
        },
    }
}

/// Whether a daemon's answer arrived, whatever it holds.
pub open spec fn answered<T>(answer: Option<T>) -> bool {
    answer is Some
}

/// Two query answers of the same kind, from the same transports, with the
/// same daemons answering: what the raw-body query and the port-map query
/// see of one daemon setup.
pub open spec fn same_answers<A, B>(a: DaemonAnswer<A>, b: DaemonAnswer<B>) -> bool {
    match (a, b) {
        (DaemonAnswer::Tcp(x), DaemonAnswer::Tcp(y)) => answered(x) == answered(y),
        (DaemonAnswer::DockerHostUnix(x), DaemonAnswer::DockerHostUnix(y)) => answered(x) == answered(y)
            && (x matches Some(xa) ==> y matches Some(ya) && answered(xa) == answered(ya)),
        (DaemonAnswer::DockerHostPipe { answer: x, pipes: p }, DaemonAnswer::DockerHostPipe { answer: y, pipes: q }) =>
            answered(x) == answered(y) && p == q,
        (DaemonAnswer::DefaultPipe { index: i, pipes: p, answer: x }, DaemonAnswer::DefaultPipe { index: j, pipes: q, answer: y }) =>
            i == j && p == q && answered(x) == answered(y),
        _ => false,
    }
}

/// The port-map query and the raw-body query ask the same daemons in the
/// same order, and find a result exactly together: given the same daemon
/// answers, they take the same next step, and finish with a result in the
/// same cases.
pub proof fn lemma_map_and_body_queries_agree<A, B>(a: DaemonAnswer<A>, b: DaemonAnswer<B>)
    requires
        same_answers(a, b),
    ensures
        next_query(a) is AskDockerHostLocal <==> next_query(b) is AskDockerHostLocal,
        next_query(a) is AskSockets <==> next_query(b) is AskSockets,
        next_query(a) is AskDefaultPipe <==> next_query(b) is AskDefaultPipe,
        next_query(a) matches DaemonQuery::AskDefaultPipe(i) ==> next_query(b) == DaemonQuery::<B>::AskDefaultPipe(i),
        next_query(a) is Finish <==> next_query(b) is Finish,
        next_query(a) matches DaemonQuery::Finish(x) ==> next_query(b) matches DaemonQuery::Finish(y)
            && answered(x) == answered(y),
{
}

/// The daemon queries never invent or drop an answer: whenever the daemon
/// just asked answered `x` (the `tcp://` host, the `unix://` host, the
/// `npipe://` host or a default pipe), the queries finish with exactly
/// `x`; and they finish with a result only when the answer carried one.
pub proof fn lemma_answered_query_finishes_with_answer<T>(answer: DaemonAnswer<T>)
    ensures
        answer matches DaemonAnswer::Tcp(Some(x)) ==> next_query(answer) == DaemonQuery::Finish(Some(x)),
        answer matches DaemonAnswer::DockerHostUnix(Some(Some(x))) ==> next_query(answer)
            == DaemonQuery::Finish(Some(x)),
        answer matches DaemonAnswer::DockerHostPipe { answer: Some(x), pipes } ==> next_query(answer)
            == DaemonQuery::Finish(Some(x)),
        answer matches DaemonAnswer::DefaultPipe { index, pipes, answer: Some(x) } ==> next_query(answer)
            == DaemonQuery::Finish(Some(x)),
        next_query(answer) matches DaemonQuery::Finish(Some(y)) ==> {
            ||| answer == DaemonAnswer::Tcp(Some(y))
            ||| answer == DaemonAnswer::<T>::DockerHostUnix(Some(Some(y)))
            ||| answer matches DaemonAnswer::DockerHostPipe { answer: Some(x), pipes } && x == y
            ||| answer matches DaemonAnswer::DefaultPipe { index, pipes, answer: Some(x) } && x == y
        },
{
}

/// A daemon that could not be reached never ends the search early, except
/// the `unix://` `DOCKER_HOST` daemon, whose failure settles the result: an
/// unreachable `tcp://` host leads to the local `DOCKER_HOST` daemon, a
/// missing `unix://` host to the well-known sockets, and an unreachable pipe
/// to the next default pipe while one is left.
pub proof fn lemma_unanswered_query_moves_on<T>(answer: DaemonAnswer<T>)
    ensures
        answer == DaemonAnswer::<T>::Tcp(None) ==> next_query(answer) == DaemonQuery::<T>::AskDockerHostLocal,
        answer == DaemonAnswer::<T>::DockerHostUnix(None) ==> next_query(answer) == DaemonQuery::<T>::AskSockets,
        answer == DaemonAnswer::<T>::DockerHostUnix(Some(None)) ==> next_query(answer) == DaemonQuery::<T>::Finish(None),
        answer matches DaemonAnswer::DockerHostPipe { answer: None, pipes } ==> next_query(answer) == (if pipes > 0 {
            DaemonQuery::<T>::AskDefaultPipe(0)
        } else {
            DaemonQuery::<T>::Finish(None)
        }),
        answer matches DaemonAnswer::DefaultPipe { index, pipes, answer: None } ==> (index + 1 < pipes
            <==> next_query(answer) == DaemonQuery::<T>::AskDefaultPipe((index + 1) as usize)),
{
}

/// A daemon whose array is empty adds nothing to the merged array, wherever
/// its answer stands among the others: no element and no stray comma.
pub proof fn lemma_empty_array_adds_nothing(bodies: Seq<Seq<char>>, i: int, empty: Seq<char>)
    requires
        0 <= i <= bodies.len(),
        bodies.len() > 0,
        array_inner(empty).len() == 0,
    ensures
        merged_bodies(bodies.insert(i, empty)) == merged_bodies(bodies),
{
    broadcast use vstd::seq_lib::group_seq_properties;

    let f = |b: Seq<char>| array_inner(b);
    let p = |x: Seq<char>| x.len() > 0;
    let front = bodies.take(i);
    let back = bodies.skip(i);
    assert(bodies =~= front + back);
    assert(bodies.insert(i, empty) =~= front + seq![empty] + back);
    assert((front + seq![empty] + back).map_values(f) =~= front.map_values(f) + seq![f(empty)]
        + back.map_values(f));
    assert((front + back).map_values(f) =~= front.map_values(f) + back.map_values(f));
    Seq::filter_distributes_over_add(
        front.map_values(f) + seq![f(empty)],
        back.map_values(f),
        p,
    );
    Seq::filter_distributes_over_add(front.map_values(f), seq![f(empty)], p);
    Seq::filter_distributes_over_add(front.map_values(f), back.map_values(f), p);
    assert(seq![f(empty)] =~= Seq::<Seq<char>>::empty().push(f(empty)));
    Seq::<Seq<char>>::empty().lemma_filter_push(f(empty), p);
    reveal(Seq::filter);
    assert(seq![f(empty)].filter(p) =~= Seq::<Seq<char>>::empty());
}

/// Merging the answer of a single daemon gives its array back, with white
/// space trimmed around the array and around its elements.
pub proof fn lemma_single_body(body: Seq<char>)
    ensures
        merged_bodies(seq![body]) == Some(
            seq!['['] + (if array_inner(body).len() > 0 {
                array_inner(body)
            } else {
                Seq::empty()
            }) + seq![']'],
        ),
{
    let f = |b: Seq<char>| array_inner(b);
    let p = |x: Seq<char>| x.len() > 0;
    assert(seq![body].map_values(f) =~= Seq::<Seq<char>>::empty().push(f(body)));
    Seq::<Seq<char>>::empty().lemma_filter_push(f(body), p);
    reveal(Seq::filter);
    if array_inner(body).len() > 0 {
        assert(array_parts(seq![body]) =~= seq![array_inner(body)]);
    } else {
        assert(array_parts(seq![body]) =~= Seq::<Seq<char>>::empty());
    }
}

/// Every binding that some daemon reported survives the merge, unless a
/// later daemon bound the same key; and the merge binds nothing else.
pub proof fn lemma_merged_maps_keep_bindings(maps: Seq<Map<PortKey, ContainerInfoView>>, k: PortKey)
    ensures
        merged_maps(maps).contains_key(k) <==> exists|i: int|
            0 <= i < maps.len() && (#[trigger] maps[i]).contains_key(k),
        forall|i: int|
            0 <= i < maps.len() && (#[trigger] maps[i]).contains_key(k) && (forall|j: int|
                i < j < maps.len() ==> !(#[trigger] maps[j]).contains_key(k)) ==> merged_maps(maps)[k]
                == maps[i][k],
{
    lemma_merged_maps_domain(maps, k);
    assert forall|i: int|
        0 <= i < maps.len() && (#[trigger] maps[i]).contains_key(k) && (forall|j: int|
            i < j < maps.len() ==> !(#[trigger] maps[j]).contains_key(k)) implies merged_maps(maps)[k]
            == maps[i][k] by {
        lemma_merged_maps_value(maps, k, i);
    }
}

proof fn lemma_merged_maps_domain(maps: Seq<Map<PortKey, ContainerInfoView>>, k: PortKey)
    ensures
        merged_maps(maps).contains_key(k) <==> exists|i: int|
            0 <= i < maps.len() && (#[trigger] maps[i]).contains_key(k),
    decreases maps.len(),
{
    if maps.len() > 0 {
        let rest = maps.drop_last();
        lemma_merged_maps_domain(rest, k);
        if merged_maps(maps).contains_key(k) {
            if !maps.last().contains_key(k) {
                let i = choose|i: int| 0 <= i < rest.len() && (#[trigger] rest[i]).contains_key(k);
                assert(maps[i] == rest[i]);
            } else {
                assert(maps[maps.len() - 1].contains_key(k));
            }
        }
        if exists|i: int| 0 <= i < maps.len() && (#[trigger] maps[i]).contains_key(k) {
            let i = choose|i: int| 0 <= i < maps.len() && (#[trigger] maps[i]).contains_key(k);
            if i < maps.len() - 1 {
                assert(rest[i] == maps[i]);
            }
        }
    }
}

proof fn lemma_merged_maps_value(maps: Seq<Map<PortKey, ContainerInfoView>>, k: PortKey, i: int)
    requires
        0 <= i < maps.len(),
        maps[i].contains_key(k),
        forall|j: int| i < j < maps.len() ==> !(#[trigger] maps[j]).contains_key(k),
    ensures
        merged_maps(maps)[k] == maps[i][k],
    decreases maps.len(),
{
    let rest = maps.drop_last();
    if i < maps.len() - 1 {
        assert(rest[i] == maps[i]);
        assert forall|j: int| i < j < rest.len() implies !(#[trigger] rest[j]).contains_key(k) by {
            assert(rest[j] == maps[j]);
        }
        lemma_merged_maps_value(rest, k, i);
        lemma_merged_maps_domain(rest, k);
        assert(merged_maps(rest).contains_key(k));
        assert(!maps[maps.len() - 1].contains_key(k));
    }
}

} // verus!
