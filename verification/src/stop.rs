use vstd::prelude::*;

use crate::http::{http_request, request_text};
use crate::text::chars_of;

verus! {

/// Result of attempting to stop or kill a container via the daemon API.
#[derive(Debug, Clone, Copy, PartialEq, Eq, Hash, Structural)]
pub enum StopOutcome {
    /// Container was successfully stopped (HTTP 204).
    Stopped,
    /// Container was already stopped (HTTP 304 for stop, 409 for kill).
    AlreadyStopped,
    /// Container was not found (HTTP 404).
    NotFound,
    /// The daemon could not be reached or returned an unexpected status.
    Failed,
}

/// How a stop outcome is shown.
pub open spec fn stop_outcome_text(outcome: StopOutcome) -> Seq<char> {
    match outcome {
        StopOutcome::Stopped => "stopped"@,
        StopOutcome::AlreadyStopped => "already stopped"@,
        StopOutcome::NotFound => "not found"@,
        StopOutcome::Failed => "failed"@,
    }
}

impl StopOutcome {
    /// `stopped`, `already stopped`, `not found` or `failed`.
    pub fn to_display_string(&self) -> (text: String)
        ensures
            text@ == stop_outcome_text(*self),
    {
        match self {
            StopOutcome::Stopped => String::from_str("stopped"),
            StopOutcome::AlreadyStopped => String::from_str("already stopped"),
            StopOutcome::NotFound => String::from_str("not found"),
            StopOutcome::Failed => String::from_str("failed"),
        }
    }
}

/// Characters that would corrupt the request line of the stop request:
/// path separators, query and fragment markers, escapes, spaces and control
/// characters (Unicode `Cc`: U+0000 to U+001F and U+007F to U+009F, line
/// breaks among them).
pub open spec fn is_unsafe_id_char(c: char) -> bool {
    ||| c == '/' || c == '?' || c == '#' || c == '%' || c == ' '
    ||| c <= '\u{1f}'
    ||| '\u{7f}' <= c <= '\u{9f}'
}

/// A container ID or name that can stand in the request path as it is.
pub open spec fn safe_container_id(id: Seq<char>) -> bool {
    &&& id.len() > 0
    &&& forall|i: int| 0 <= i < id.len() ==> !is_unsafe_id_char(#[trigger] id[i])
}

/// The request path of the stop (`force == false`) or kill (`force == true`)
/// endpoint for the container `id`.
pub open spec fn stop_path(id: Seq<char>, force: bool) -> Seq<char> {
    "/containers/"@ + id + (if force { "/kill"@ } else { "/stop"@ })
}

/// What a status code of the stop or kill endpoint means.
pub open spec fn stop_status_outcome(status_code: u16, force: bool) -> StopOutcome {
    if status_code == 204 {
        StopOutcome::Stopped
    } else if status_code == 304 {
        StopOutcome::AlreadyStopped
    } else if status_code == 409 && force {
        StopOutcome::AlreadyStopped
    } else if status_code == 404 {
        StopOutcome::NotFound
    } else {
        StopOutcome::Failed
    }
}

/// The outcome of a stop request whose daemons, taken together, answered
/// `status` (none: no daemon could be reached).
pub open spec fn request_outcome(status: Option<u16>, force: bool) -> StopOutcome {
    match status {
        Some(code) => stop_status_outcome(code, force),
        None => StopOutcome::Failed,
    }
}

/// Whether a transport's answer ends the search over daemons: every status
/// code but 404 does; 404 and an unreachable daemon do not.
pub open spec fn is_final_status(code: Option<u16>) -> bool {
    code matches Some(c) && c != 404
}

/// The status that the answers of the daemons tried so far amount to: the
/// first answer other than 404, else 404 when some daemon answered 404,
/// else none.
pub open spec fn combined_status(codes: Seq<Option<u16>>) -> Option<u16>
    decreases codes.len(),
{
    if codes.len() == 0 {
        None
    } else {
        let earlier = combined_status(codes.drop_last());
        if is_final_status(earlier) {
            earlier
        } else if is_final_status(codes.last()) {
            codes.last()
        } else if earlier == Some(404u16) || codes.last() == Some(404u16) {
            Some(404u16)
        } else {
            None
        }
    }
}

/// Reject container IDs that would corrupt the HTTP request line.
///
/// Docker accepts both hex IDs and container names (alphanumeric, hyphens,
/// underscores, dots). This function rejects only characters that could
/// cause path traversal or HTTP header injection: `/`, `?`, `#`, `%`,
/// spaces and control characters.
pub fn is_safe_container_id(id: &str) -> (safe: bool)
    ensures
        safe == safe_container_id(id@),
{
    let chars = chars_of(id);
    if chars.len() == 0 {
        return false;
    }
    let mut i: usize = 0;
    while i < chars.len()
        invariant
            chars@ == id@,
            i <= chars.len(),
            forall|j: int| 0 <= j < i ==> !is_unsafe_id_char(#[trigger] id@[j]),
        decreases chars.len() - i,
    {
        let c = chars[i];
        if c == '/' || c == '?' || c == '#' || c == '%' || c == ' ' || c <= '\u{1f}' || ('\u{7f}'
            <= c && c <= '\u{9f}') {
            assert(is_unsafe_id_char(id@[i as int]));
            return false;
        }
        i = i + 1;
    }
    true
}

/// The request path `/containers/{id}/stop`, or `/containers/{id}/kill`
/// when `force` is set.
pub fn stop_endpoint(id: &str, force: bool) -> (endpoint: String)
    ensures
        endpoint@ == stop_path(id@, force),
{
    let path = String::from_str("/containers/").concat(id);
    if force {
        path.concat("/kill")
    } else {
        path.concat("/stop")
    }
}

/// Map an HTTP status code from the stop/kill endpoint to `StopOutcome`.
///
/// The stop endpoint answers 304 when the container is already stopped; the
/// kill endpoint answers 409 when the container is not running.
pub fn interpret_stop_status(status_code: u16, force: bool) -> (outcome: StopOutcome)
    ensures
        outcome == stop_status_outcome(status_code, force),
{
    match status_code {
        204 => StopOutcome::Stopped,
        304 => StopOutcome::AlreadyStopped,
        409 if force => StopOutcome::AlreadyStopped,
        404 => StopOutcome::NotFound,
        _ => StopOutcome::Failed,
    }
}

/// Return `code` if it is not a 404, otherwise fold it into `fallback` so the
/// caller can return the 404 only after all daemons have been tried.
pub fn fold_stop_code(code: u16, fallback: &mut Option<u16>) -> (passed: Option<u16>)
    ensures
        code == 404 ==> passed is None && *final(fallback) == Some(404u16),
        code != 404 ==> passed == Some(code) && *final(fallback) == *old(fallback),
{
    if code == 404 {
        *fallback = Some(404);
        None
    } else {
        Some(code)
    }
}

proof fn lemma_combined_status_push(codes: Seq<Option<u16>>, code: Option<u16>)
    ensures
        combined_status(codes.push(code)) == (if is_final_status(combined_status(codes)) {
            combined_status(codes)
        } else if is_final_status(code) {
            code
        } else if combined_status(codes) == Some(404u16) || code == Some(404u16) {
            Some(404u16)
        } else {
            None
        }),
{
    assert(codes.push(code).drop_last() =~= codes);
}

/// The next thing a stop search does.
pub enum StopAction {
    /// Send `request`, which is `POST endpoint` over HTTP/1.0, over
    /// transport number `transport`, and hand its answer to
    /// [`StopSearch::step`].
    Send { transport: usize, endpoint: String, request: String },
    /// The search is over.
    Finish(StopOutcome),
}

/// What a [`StopAction`] says.
pub enum StopActionView {
    Send { transport: nat, endpoint: Seq<char>, request: Seq<char> },
    Finish(StopOutcome),
}

impl View for StopAction {
    type V = StopActionView;

    open spec fn view(&self) -> StopActionView {
        match self {
            StopAction::Send { transport, endpoint, request } => StopActionView::Send {
                transport: *transport as nat,
                endpoint: endpoint@,
                request: request@,
            },
            StopAction::Finish(outcome) => StopActionView::Finish(*outcome),
        }
    }
}

/// A request to stop or kill a container, tried on the daemons behind a
/// number of transports in turn.
pub struct StopSearch {
    rejected: bool,
    force: bool,
    endpoint: String,
    transports: usize,
    answers: Vec<Option<u16>>,
}

/// The state of a stop search.
pub struct StopSearchView {
    /// The container ID was refused before any daemon was asked.
    pub rejected: bool,
    /// Kill (`true`) or graceful stop (`false`).
    pub force: bool,
    /// The request path.
    pub endpoint: Seq<char>,
    /// How many transports there are to try.
    pub transports: nat,
    /// The answers of the transports asked so far, in order (none: the
    /// transport reached no daemon).
    pub answers: Seq<Option<u16>>,
}

impl View for StopSearch {
    type V = StopSearchView;

    closed spec fn view(&self) -> StopSearchView {
        StopSearchView {
            rejected: self.rejected,
            force: self.force,
            endpoint: self.endpoint@,
            transports: self.transports as nat,
            answers: self.answers@,
        }
    }
}

/// Whether a stop search is over: the ID was refused, every transport has
/// been asked, or the last daemon asked gave an answer other than 404.
pub open spec fn search_finished(search: StopSearchView) -> bool {
    ||| search.rejected
    ||| search.answers.len() >= search.transports
    ||| (search.answers.len() > 0 && is_final_status(search.answers.last()))
}

/// What a stop search does next: ask the next transport for its endpoint
/// while it is not over; then report `NotFound` for a refused ID, else what
/// the answers amount to.
pub open spec fn search_action(search: StopSearchView) -> StopActionView {
    if search.rejected {
        StopActionView::Finish(StopOutcome::NotFound)
    } else if search_finished(search) {
        StopActionView::Finish(request_outcome(combined_status(search.answers), search.force))
    } else {
        StopActionView::Send {
            transport: search.answers.len(),
            endpoint: search.endpoint,
            request: request_text("POST"@, search.endpoint),
        }
    }
}

/// The search after the last transport asked answered `answer`; a search
/// that is over stays as it is.
pub open spec fn search_after(search: StopSearchView, answer: Option<u16>) -> StopSearchView {
    if search_finished(search) {
        search
    } else {
        StopSearchView { answers: search.answers.push(answer), ..search }
    }
}

/// Stop or kill a running container via the Docker/Podman daemon API: the
/// search over `transports` transports that does it.
///
/// When `force` is false, the search sends `POST /containers/{id}/stop`
/// (graceful SIGTERM with a 10-second timeout before SIGKILL). When `force`
/// is true, it sends `POST /containers/{id}/kill` (immediate SIGKILL).
///
/// The `id` can be a container ID (hex) or a container name. Characters that
/// would corrupt the HTTP request path (`/`, `?`, `#`, `%`, control
/// characters, spaces) are rejected early with [`StopOutcome::NotFound`]:
/// the search is then over before any daemon is asked.
///
/// The transports are tried in order, one `POST` per [`StopAction::Send`]; the
/// outcome comes from the first daemon that answers something other than
/// 404. A 404 does not end the search, since the container may exist on
/// another daemon (e.g., Podman when Docker answers 404); it is reported
/// only after every transport has been tried.
pub fn stop_container(id: &str, force: bool, transports: usize) -> (search: StopSearch)
    ensures
        search@.rejected == !safe_container_id(id@),
        search@.force == force,
        search@.transports == transports,
        search@.answers == Seq::<Option<u16>>::empty(),
        safe_container_id(id@) ==> search@.endpoint == stop_path(id@, force),
        !safe_container_id(id@) ==> search@.endpoint == Seq::<char>::empty(),
{
    if !is_safe_container_id(id) {
        return StopSearch { rejected: true, force, endpoint: String::new(), transports, answers: Vec::new() };
    }
    StopSearch { rejected: false, force, endpoint: stop_endpoint(id, force), transports, answers: Vec::new() }
}

impl StopSearch {
    /// Whether the search is over.
    pub fn is_finished(&self) -> (finished: bool)
        ensures
            finished == search_finished(self@),
    {
        self.rejected || self.answers.len() >= self.transports || (self.answers.len() > 0
            && match self.answers[self.answers.len() - 1] {
            Some(code) => code != 404,
            None => false,
        })
    }

    /// The status that the answers so far amount to: the first answer
    /// other than 404, else 404 when some daemon answered 404, else none.
    pub fn status(&self) -> (status: Option<u16>)
        ensures
            status == combined_status(self@.answers),
    {
        let ghost codes = self.answers@;
        let mut not_found: Option<u16> = None;
        let mut i: usize = 0;
        while i < self.answers.len()
            invariant
                codes == self.answers@,
                i <= codes.len(),
                forall|j: int| 0 <= j < i ==> !is_final_status(#[trigger] codes[j]),
                not_found == combined_status(codes.take(i as int)),
                not_found is None || not_found == Some(404u16),
            decreases codes.len() - i,
        {
            proof {
                lemma_combined_status_push(codes.take(i as int), codes[i as int]);
                assert(codes.take(i + 1) =~= codes.take(i as int).push(codes[i as int]));
            }
            if let Some(code) = self.answers[i] {
                if let Some(result) = fold_stop_code(code, &mut not_found) {
                    proof {
                        lemma_first_answer_wins(codes, i as int);
                    }
                    return Some(result);
                }
            }
            i = i + 1;
        }
        proof {
            assert(codes.take(i as int) =~= codes);
        }
        not_found
    }

    /// What the search does next.
    pub fn action(&self) -> (action: StopAction)
        ensures
            action@ == search_action(self@),
    {
        if self.rejected {
            StopAction::Finish(StopOutcome::NotFound)
        } else if self.is_finished() {
            match self.status() {
                Some(status_code) => StopAction::Finish(interpret_stop_status(status_code, self.force)),
                None => StopAction::Finish(StopOutcome::Failed),
            }
        } else {
            StopAction::Send {
                transport: self.answers.len(),
                endpoint: self.endpoint.clone(),
                request: http_request("POST", self.endpoint.as_str()),
            }
        }
    }

    /// Record what the transport last sent to answered (none: it reached no
    /// daemon), and say what the search does next. A search that is over
    /// ignores the answer.
    pub fn step(&mut self, answer: Option<u16>) -> (action: StopAction)
        ensures
            final(self)@ == search_after(old(self)@, answer),
            action@ == search_action(final(self)@),
    {
        if !self.is_finished() {
            self.answers.push(answer);
        }
        self.action()
    }
}

/// A character that Docker allows in container names and IDs: an ASCII
/// letter of either case, a digit, `-`, `_` or `.`.
pub open spec fn is_name_char(c: char) -> bool {
    ||| 'a' <= c <= 'z'
    ||| 'A' <= c <= 'Z'
    ||| '0' <= c <= '9'
    ||| c == '-' || c == '_' || c == '.'
}

/// Every container ID or name that Docker allows is accepted: a non-empty
/// ID made of ASCII letters (either case), digits, `-`, `_` and `.` is safe,
/// and so is any ID whose characters lie beyond the control characters
/// (U+00A0 and above). The stop search for such an ID is not refused: it
/// asks the first daemon for `POST /containers/{id}/stop` (or `/kill`).
pub proof fn lemma_docker_names_are_accepted(id: Seq<char>, force: bool, transports: nat)
    ensures
        id.len() > 0 && (forall|i: int| 0 <= i < id.len() ==> is_name_char(#[trigger] id[i]))
            ==> safe_container_id(id),
        id.len() > 0 && (forall|i: int| 0 <= i < id.len() ==> (#[trigger] id[i]) >= '\u{a0}')
            ==> safe_container_id(id),
        safe_container_id(id) && transports > 0 ==> search_action(
            (StopSearchView {
                rejected: false,
                force,
                endpoint: stop_path(id, force),
                transports,
                answers: Seq::empty(),
            }),
        ) == (StopActionView::Send {
            transport: 0,
            endpoint: stop_path(id, force),
            request: request_text("POST"@, stop_path(id, force)),
        }),
{
}

/// IDs that could corrupt the request line are refused: any ID holding a
/// `/`, `?`, `#`, `%`, space, CR, LF, tab, NUL or DEL, and the empty ID.
pub proof fn lemma_injection_ids_are_refused(id: Seq<char>, i: int)
    requires
        0 <= i < id.len(),
        ({
            let c = id[i];
            c == '/' || c == '?' || c == '#' || c == '%' || c == ' ' || c == '\r' || c == '\n'
                || c == '\t' || c == '\u{0}' || c == '\u{7f}'
        }),
    ensures
        !safe_container_id(id),
        !safe_container_id(Seq::<char>::empty()),
{
}

/// Once a daemon has given an answer other than 404, the answers of the
/// daemons after it no longer matter: the combined status is that answer.
pub proof fn lemma_first_answer_wins(codes: Seq<Option<u16>>, i: int)
    requires
        0 <= i < codes.len(),
        is_final_status(codes[i]),
        forall|j: int| 0 <= j < i ==> !is_final_status(#[trigger] codes[j]),
    ensures
        combined_status(codes) == codes[i],
    decreases codes.len(),
{
    if i < codes.len() - 1 {
        lemma_first_answer_wins(codes.drop_last(), i);
    } else {
        lemma_no_answer_status(codes.drop_last());
    }
}

/// When no daemon gave an answer other than 404, the combined status is 404
/// if some daemon answered 404, and none otherwise.
pub proof fn lemma_no_answer_status(codes: Seq<Option<u16>>)
    requires
        forall|j: int| 0 <= j < codes.len() ==> !is_final_status(#[trigger] codes[j]),
    ensures
        combined_status(codes) == (if codes.contains(Some(404u16)) {
            Some(404u16)
        } else {
            None::<u16>
        }),
    decreases codes.len(),
{
    if codes.len() > 0 {
        let rest = codes.drop_last();
        assert forall|j: int| 0 <= j < rest.len() implies !is_final_status(#[trigger] rest[j]) by {
            assert(rest[j] == codes[j]);
        }
        lemma_no_answer_status(rest);
        if codes.contains(Some(404u16)) {
            let j = choose|j: int| 0 <= j < codes.len() && codes[j] == Some(404u16);
            if j < codes.len() - 1 {
                assert(rest[j] == codes[j]);
            }
        } else {
            assert forall|j: int| 0 <= j < rest.len() implies rest[j] != Some(404u16) by {
                assert(rest[j] == codes[j]);
            }
        }
    }
}

/// A stop request ends as "not found" only when no daemon answered anything
/// but 404 and at least one answered 404: a 404 from one daemon never hides
/// another daemon's answer.
pub proof fn lemma_not_found_only_when_every_daemon_missed(codes: Seq<Option<u16>>, force: bool)
    ensures
        request_outcome(combined_status(codes), force) == StopOutcome::NotFound <==> (
        forall|j: int| 0 <= j < codes.len() ==> codes[j] is None || codes[j] == Some(404u16))
            && codes.contains(Some(404u16)),
{
    if exists|j: int| 0 <= j < codes.len() && is_final_status(#[trigger] codes[j]) {
        let i = lemma_first_final(codes);
        lemma_first_answer_wins(codes, i);
        assert(!(forall|j: int| 0 <= j < codes.len() ==> codes[j] is None || codes[j] == Some(404u16)))
            by {
            assert(!(codes[i] is None || codes[i] == Some(404u16)));
        }
    } else {
        lemma_no_answer_status(codes);
        assert forall|j: int| 0 <= j < codes.len() implies codes[j] is None || codes[j] == Some(404u16) by {
            assert(!is_final_status(codes[j]));
        }
    }
}

/// The position of the first answer other than 404.
proof fn lemma_first_final(codes: Seq<Option<u16>>) -> (i: int)
    requires
        exists|j: int| 0 <= j < codes.len() && is_final_status(#[trigger] codes[j]),
    ensures
        0 <= i < codes.len(),
        is_final_status(codes[i]),
        forall|j: int| 0 <= j < i ==> !is_final_status(#[trigger] codes[j]),
    decreases codes.len(),
{
    let rest = codes.drop_last();
    if exists|j: int| 0 <= j < rest.len() && is_final_status(#[trigger] rest[j]) {
        let i = lemma_first_final(rest);
        assert forall|j: int| 0 <= j < i implies !is_final_status(#[trigger] codes[j]) by {
            assert(rest[j] == codes[j]);
        }
        assert(rest[i] == codes[i]);
        i
    } else {
        assert forall|j: int| 0 <= j < codes.len() - 1 implies !is_final_status(#[trigger] codes[j]) by {
            assert(rest[j] == codes[j]);
        }
        codes.len() - 1
    }
}

} // verus!
