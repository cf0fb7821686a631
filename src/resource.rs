//! The callbacks through which a resource answers the decision graph.
use vstd::prelude::*;

use crate::http::{EntityTag, MediaType, Method, Request};
use crate::types::HasAirshipState;

verus! {

/// The callbacks that a resource answers. Each has a default; a resource
/// overrides the ones it needs. A callback may read the request state but
/// leaves it as it found it: the decision graph alone writes it.
pub trait Webmachine {
    /// Whether to allow a `POST` to a missing resource. Default: false.
    fn allow_missing_post<S: HasAirshipState>(&self, state: &mut S) -> (r: bool)
        ensures
            final(state).airship() == old(state).airship(),
    {
        false
    }

    /// The methods that this resource allows; a request with another method gets `405 Method Not Allowed`. Default: `GET`, `HEAD` and `OPTIONS`.
    fn allowed_methods<S: HasAirshipState>(&self, state: &mut S) -> (r: Vec<Method>)
        ensures
            final(state).airship() == old(state).airship(),
    {
        vec![Method::Get, Method::Head, Method::Options]
    }

    /// The media types that a request body may have; `accept_content` is then run with the place of the request's `Content-Type` in this list. A type not listed gives `415 Unsupported Media Type`. Default: none.
    fn content_types_accepted<S: HasAirshipState>(&self, state: &mut S) -> (r: Vec<MediaType>)
        ensures
            final(state).airship() == old(state).airship(),
    {
        Vec::new()
    }

    /// The media types that this resource can give, best first; `provide_body` makes the body for the one chosen from `Accept`. No match gives `406 Not Acceptable`. Default: `text/plain`.
    fn content_types_provided<S: HasAirshipState>(&self, state: &mut S) -> (r: Vec<MediaType>)
        ensures
            final(state).airship() == old(state).airship(),
    {
        vec![MediaType::new("text", "plain")]
    }

    /// After a `DELETE` was enacted: false gives `202 Accepted`, true lets processing go on. Default: false.
    fn delete_completed<S: HasAirshipState>(&self, state: &mut S) -> (r: bool)
        ensures
            final(state).airship() == old(state).airship(),
    {
        false
    }

    /// Enacts a `DELETE`; false gives `500 Internal Server Error`. Default: false.
    fn delete_resource<S: HasAirshipState>(&self, state: &mut S, _req: &Request) -> (r: bool)
        ensures
            final(state).airship() == old(state).airship(),
    {
        false
    }

    /// True gives `413 Payload Too Large`. Default: false.
    fn entity_too_large<S: HasAirshipState>(&self, state: &mut S, _req: &Request) -> (r: bool)
        ensures
            final(state).airship() == old(state).airship(),
    {
        false
    }

    /// True gives `403 Forbidden`. Default: false.
    fn forbidden<S: HasAirshipState>(&self, state: &mut S, _req: &Request) -> (r: bool)
        ensures
            final(state).airship() == old(state).airship(),
    {
        false
    }

    /// An entity tag to put in the `ETag` header of a successful response. Default: none.
    fn generate_etag<S: HasAirshipState>(&self, state: &mut S, _req: &Request) -> (r: Option<EntityTag>)
        ensures
            final(state).airship() == old(state).airship(),
    {
        None
    }

    /// Whether the resource has a handler for the request's method. Default: true.
    fn implemented<S: HasAirshipState>(&self, state: &mut S) -> (r: bool)
        ensures
            final(state).airship() == old(state).airship(),
    {
        true
    }

    /// False gives `401 Unauthorized`. Default: true.
    fn is_authorized<S: HasAirshipState>(&self, state: &mut S, _req: &Request) -> (r: bool)
        ensures
            final(state).airship() == old(state).airship(),
    {
        true
    }

    /// True gives `409 Conflict` on a `PUT`. Default: false.
    fn is_conflict<S: HasAirshipState>(&self, state: &mut S) -> (r: bool)
        ensures
            final(state).airship() == old(state).airship(),
    {
        false
    }

    /// False gives `415 Unsupported Media Type`. Default: true.
    fn known_content_type<S: HasAirshipState>(&self, state: &mut S, _req: &Request) -> (r: bool)
        ensures
            final(state).airship() == old(state).airship(),
    {
        true
    }

    /// When the resource last changed, in seconds since the Unix epoch; read by the conditional-request nodes and put in `Last-Modified`. Default: none.
    fn last_modified<S: HasAirshipState>(&self, state: &mut S) -> (r: Option<u64>)
        ensures
            final(state).airship() == old(state).airship(),
    {
        None
    }

    /// Given the request's `Accept-Language`: false gives `406 Not Acceptable`. Default: true.
    fn language_available<S: HasAirshipState>(&self, state: &mut S, _accept_language: &String) -> (r: bool)
        ensures
            final(state).airship() == old(state).airship(),
    {
        true
    }

    /// True gives `400 Bad Request`. Default: false.
    fn malformed_request<S: HasAirshipState>(&self, state: &mut S, _req: &Request) -> (r: bool)
        ensures
            final(state).airship() == old(state).airship(),
    {
        false
    }

    /// A location that gives `301 Moved Permanently` with that `Location`. Default: none.
    fn moved_permanently<S: HasAirshipState>(&self, state: &mut S) -> (r: Option<String>)
        ensures
            final(state).airship() == old(state).airship(),
    {
        None
    }

    /// A location that gives `307 Temporary Redirect` with that `Location`. Default: none.
    fn moved_temporarily<S: HasAirshipState>(&self, state: &mut S) -> (r: Option<String>)
        ensures
            final(state).airship() == old(state).airship(),
    {
        None
    }

    /// True gives `300 Multiple Choices`. Default: false.
    fn multiple_choices<S: HasAirshipState>(&self, state: &mut S) -> (r: bool)
        ensures
            final(state).airship() == old(state).airship(),
    {
        false
    }

    /// As `content_types_accepted`, for a `PATCH`; `accept_patch` is run on a match. Default: none.
    fn patch_content_types_accepted<S: HasAirshipState>(&self, state: &mut S) -> (r: Vec<MediaType>)
        ensures
            final(state).airship() == old(state).airship(),
    {
        Vec::new()
    }

    /// For a resource that does not exist: true lets `moved_permanently` and `moved_temporarily` be consulted. Default: false.
    fn previously_existed<S: HasAirshipState>(&self, state: &mut S) -> (r: bool)
        ensures
            final(state).airship() == old(state).airship(),
    {
        false
    }

    /// How to handle a `POST`. Default: process it, with no media type accepted.
    fn process_post<S: HasAirshipState>(&self, state: &mut S, _req: &Request) -> (r: PostResponse)
        ensures
            final(state).airship() == old(state).airship(),
    {
        PostResponse::PostProcess(Vec::new())
    }

    /// Whether the resource exists; false mostly ends in `404 Not Found`. Default: true.
    fn resource_exists<S: HasAirshipState>(&self, state: &mut S) -> (r: bool)
        ensures
            final(state).airship() == old(state).airship(),
    {
        true
    }

    /// False gives `503 Service Unavailable`. Default: true.
    fn service_available<S: HasAirshipState>(&self, state: &mut S) -> (r: bool)
        ensures
            final(state).airship() == old(state).airship(),
    {
        true
    }

    /// Given the request path: true gives `414 URI Too Long`. Default: false.
    fn uri_too_long<S: HasAirshipState>(&self, state: &mut S, _uri: &String) -> (r: bool)
        ensures
            final(state).airship() == old(state).airship(),
    {
        false
    }

    /// False gives `501 Not Implemented`. Default: true.
    fn valid_content_headers<S: HasAirshipState>(&self, state: &mut S, _req: &Request) -> (r: bool)
        ensures
            final(state).airship() == old(state).airship(),
    {
        true
    }

    /// The body for the media type at place `index` of
    /// `content_types_provided`. Default: empty.
    fn provide_body(&self, _req: &Request, _index: usize) -> String {
        String::new()
    }

    /// Takes in a request body whose media type is at place `index` of
    /// `content_types_accepted`. Default: nothing.
    fn accept_content(&self, _req: &Request, _index: usize) {
    }

    /// Takes in a `PATCH` body whose media type is at place `index` of
    /// `patch_content_types_accepted`. Default: nothing.
    fn accept_patch(&self, _req: &Request, _index: usize) {
    }

    /// Processes a `POST` body whose media type is at place `index` of the
    /// list in `PostResponse::PostProcess`. Default: nothing.
    fn process_content(&self, _req: &Request, _index: usize) {
    }

    /// Processes a `POST` body whose media type is at place `index` of the
    /// list in `PostResponse::PostProcessRedirect`, and gives the location to
    /// redirect to. Default: empty.
    fn process_redirect(&self, _req: &Request, _index: usize) -> String {
        String::new()
    }
}

/// A resource that keeps every default.
#[derive(Clone, Copy, Debug)]
pub struct Resource;

impl Webmachine for Resource {}

/// How a `POST` is handled.
pub enum PostResponse {
    /// Treat the request as a `PUT` of a new resource whose path is the
    /// request path followed by these segments.
    PostCreate(Vec<String>),
    /// As `PostCreate`, then redirect to the new resource.
    PostCreateRedirect(Vec<String>),
    /// Process the body, whose media type must be one of these, without a
    /// redirect.
    PostProcess(Vec<MediaType>),
    /// Process the body, whose media type must be one of these, and redirect
    /// to the location that `process_redirect` gives.
    PostProcessRedirect(Vec<MediaType>),
}

} // verus!
