//! The per-request state that the decision graph keeps.
use vstd::prelude::*;

use crate::decision::{Answer, Node};
use crate::http::{MediaType, Response, ResponseHeader, blank_response, with_header};

verus! {

/// What one traversal of the decision graph records and builds.
pub struct AirshipState {
    pub error_responses: String,
    /// The nodes visited, in order.
    pub decision_trace: Vec<Node>,
    /// What each visited node learned from the resource or the request, in
    /// the order of `decision_trace`.
    pub decision_answers: Ghost<Seq<Answer>>,
    /// The response under construction as each visited node found it, in
    /// the order of `decision_trace`.
    pub decision_seen: Ghost<Seq<Option<Response>>>,
    /// The media type chosen from `Accept`, with its place in the resource's
    /// `content_types_provided`.
    pub matched_content_type: Option<(MediaType, usize)>,
    /// The response under construction.
    pub response: Option<Response>,
    /// When the request arrived, in seconds since the Unix epoch.
    pub request_time: u64,
}

/// Relies on std's `SystemTime::now`: the current time, in whole seconds since
/// the Unix epoch (0 for a clock set before it).
#[verifier::external_body]
fn clock_seconds() -> u64 {
    match std::time::SystemTime::now().duration_since(std::time::UNIX_EPOCH) {
        Ok(d) => d.as_secs(),
        Err(_) => 0,
    }
}

impl AirshipState {
    /// A fresh state for a request that arrives now.
    pub fn new() -> (r: AirshipState)
        ensures
            r.error_responses@ == Seq::<char>::empty(),
            r.decision_trace@.len() == 0,
            r.decision_answers@.len() == 0,
            r.decision_seen@.len() == 0,
            r.matched_content_type is None,
            r.response == Some(blank_response()),
    {
        AirshipState::arrived_at(clock_seconds())
    }

    /// A fresh state for a request that arrived at `request_time`.
    pub fn arrived_at(request_time: u64) -> (r: AirshipState)
        ensures
            r.error_responses@ == Seq::<char>::empty(),
            r.decision_trace@.len() == 0,
            r.decision_answers@.len() == 0,
            r.decision_seen@.len() == 0,
            r.matched_content_type is None,
            r.response == Some(blank_response()),
            r.request_time == request_time,
    {
        AirshipState {
            error_responses: String::new(),
            decision_trace: Vec::new(),
            decision_answers: Ghost(Seq::empty()),
            decision_seen: Ghost(Seq::empty()),
            matched_content_type: None,
            response: Some(Response::new()),
            request_time,
        }
    }
}

impl Default for AirshipState {
    fn default() -> (r: AirshipState)
        ensures
            r.decision_trace@.len() == 0,
            r.decision_answers@.len() == 0,
            r.decision_seen@.len() == 0,
            r.matched_content_type is None,
            r.response == Some(blank_response()),
    {
        AirshipState::new()
    }
}

/// A request state that holds an `AirshipState`.
pub trait HasAirshipState {
    /// The `AirshipState` held.
    spec fn airship(&self) -> AirshipState;

    fn get_airship_state(&self) -> (r: &AirshipState)
        ensures
            *r == self.airship(),
    ;

    fn get_airship_state_mut(&mut self) -> (r: &mut AirshipState)
        ensures
            *r == old(self).airship(),
            final(self).airship() == *final(r),
    ;
}

/// The nodes visited so far.
pub fn get_trace<S: HasAirshipState>(state: &S) -> (r: &Vec<Node>)
    ensures
        *r == state.airship().decision_trace,
{
    &state.get_airship_state().decision_trace
}

/// Records a visit of `node`.
pub fn trace<S: HasAirshipState>(state: &mut S, node: Node)
    ensures
        final(state).airship() == (AirshipState {
            decision_trace: final(state).airship().decision_trace,
            ..old(state).airship()
        }),
        final(state).airship().decision_trace@ == old(state).airship().decision_trace@.push(node),
{
    let st = state.get_airship_state_mut();
    st.decision_trace.push(node);
}

/// Records what the node visited last learned, and the response under
/// construction as it found it.
pub(crate) fn record_answer<S: HasAirshipState>(state: &mut S, answer: Ghost<Answer>, seen: Ghost<Option<Response>>)
    ensures
        final(state).airship() == (AirshipState {
            decision_answers: Ghost(old(state).airship().decision_answers@.push(answer@)),
            decision_seen: Ghost(old(state).airship().decision_seen@.push(seen@)),
            ..old(state).airship()
        }),
{
    let st = state.get_airship_state_mut();
    st.decision_answers = Ghost(st.decision_answers@.push(answer@));
    st.decision_seen = Ghost(st.decision_seen@.push(seen@));
}

/// The media type chosen from `Accept`, if any, taken out of the state.
pub fn get_matched_content_type<S: HasAirshipState>(state: &mut S) -> (r: Option<(MediaType, usize)>)
    ensures
        r == old(state).airship().matched_content_type,
        final(state).airship() == (AirshipState {
            matched_content_type: None,
            ..old(state).airship()
        }),
{
    let st = state.get_airship_state_mut();
    st.matched_content_type.take()
}

/// Records the media type chosen from `Accept`.
pub fn matched_content_type<S: HasAirshipState>(state: &mut S, matched: Option<(MediaType, usize)>)
    ensures
        final(state).airship() == (AirshipState {
            matched_content_type: matched,
            ..old(state).airship()
        }),
{
    let st = state.get_airship_state_mut();
    st.matched_content_type = matched;
}

/// The response after `h` is set on it, if there is one.
pub open spec fn response_with_header(r: Option<Response>, h: ResponseHeader) -> Option<Response> {
    match r {
        Some(resp) => Some(Response { headers: with_header(resp.headers, h), ..resp }),
        None => None,
    }
}

/// Sets a header on the response under construction.
pub fn set_response_header<S: HasAirshipState>(state: &mut S, hdr: ResponseHeader)
    ensures
        final(state).airship() == (AirshipState {
            response: response_with_header(old(state).airship().response, hdr),
            ..old(state).airship()
        }),
{
    let st = state.get_airship_state_mut();
    match &mut st.response {
        Some(resp) => resp.set_header(hdr),
        None => {},
    }
}

/// When the request arrived, in seconds since the Unix epoch.
pub fn request_time<S: HasAirshipState>(state: &S) -> (r: u64)
    ensures
        r == state.airship().request_time,
{
    state.get_airship_state().request_time
}

/// There is a response under construction, and its body is absent or
/// empty.
pub open spec fn response_is_empty(r: Option<Response>) -> bool {
    match r {
        Some(resp) => match resp.body {
            Some(b) => b@.len() == 0,
            None => true,
        },
        None => false,
    }
}

/// Whether there is a response under construction whose body is absent or
/// empty.
pub fn is_response_empty<S: HasAirshipState>(state: &S) -> (r: bool)
    ensures
        r == response_is_empty(state.airship().response),
{
    let st = state.get_airship_state();
    match &st.response {
        Some(resp) => match &resp.body {
            Some(b) => b.as_str().unicode_len() == 0,
            None => true,
        },
        None => false,
    }
}

/// Takes the response under construction out of the state (a blank one if
/// it was taken before).
pub fn get_response<S: HasAirshipState>(state: &mut S) -> (r: Response)
    ensures
        r == (match old(state).airship().response {
            Some(resp) => resp,
            None => blank_response(),
        }),
        final(state).airship() == (AirshipState { response: None, ..old(state).airship() }),
{
    let st = state.get_airship_state_mut();
    match st.response.take() {
        Some(resp) => resp,
        None => Response::new(),
    }
}

/// Sets the body of the response under construction.
pub fn set_response_body<S: HasAirshipState>(state: &mut S, body: String)
    ensures
        final(state).airship() == (AirshipState {
            response: match old(state).airship().response {
                Some(resp) => Some(Response { body: Some(body), ..resp }),
                None => None,
            },
            ..old(state).airship()
        }),
{
    let st = state.get_airship_state_mut();
    match &mut st.response {
        Some(resp) => resp.body = Some(body),
        None => {},
    }
}

/// The request state that this library provides: an `AirshipState` alone.
pub struct RequestState(pub AirshipState);

impl RequestState {
    pub fn new() -> (r: RequestState)
        ensures
            r.0.decision_trace@.len() == 0,
            r.0.decision_answers@.len() == 0,
            r.0.decision_seen@.len() == 0,
            r.0.matched_content_type is None,
            r.0.response == Some(blank_response()),
    {
        RequestState(AirshipState::new())
    }
}

impl Default for RequestState {
    fn default() -> (r: RequestState)
        ensures
            r.0.decision_trace@.len() == 0,
            r.0.decision_answers@.len() == 0,
            r.0.decision_seen@.len() == 0,
            r.0.matched_content_type is None,
            r.0.response == Some(blank_response()),
    {
        RequestState::new()
    }
}

impl HasAirshipState for RequestState {
    open spec fn airship(&self) -> AirshipState {
        self.0
    }

    fn get_airship_state(&self) -> (r: &AirshipState) {
        &self.0
    }

    fn get_airship_state_mut(&mut self) -> (r: &mut AirshipState) {
        &mut self.0
    }
}

} // verus!
