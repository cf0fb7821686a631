use airship::decision::{traverse, Node};
use airship::http::{EntityTag, EtagCondition, MediaType, Method, QualityItem, Request, Response};
use airship::resource::{PostResponse, Resource, Webmachine};
use airship::types::{get_trace, AirshipState, HasAirshipState, RequestState};

fn run<R: Webmachine>(r: &R, req: &Request) -> (Response, Vec<Node>) {
    let mut state = RequestState(AirshipState::arrived_at(1_000_000));
    let resp = traverse(r, req, &mut state);
    let trace = get_trace(&state).clone();
    (resp, trace)
}

fn labels(trace: &[Node]) -> Vec<&'static str> {
    trace.iter().map(|n| n.label()).collect()
}

fn media(t: &str, s: &str) -> MediaType {
    MediaType::new(t, s)
}

fn accept(items: Vec<(&str, &str, u16)>) -> Option<Vec<QualityItem>> {
    Some(items.into_iter().map(|(t, s, q)| QualityItem { item: media(t, s), quality: q }).collect())
}

fn same_media(a: &Option<MediaType>, t: &str, s: &str) -> bool {
    match a {
        Some(m) => m.type_ == t && m.subtype == s,
        None => false,
    }
}

#[derive(Clone, Default)]
struct Custom {
    unavailable: bool,
    allowed: Option<Vec<Method>>,
    provided: Option<Vec<MediaType>>,
    missing: bool,
    forbidden: bool,
    conflict: bool,
    accepted: Vec<MediaType>,
    post: Option<Vec<String>>,
    deleted: Option<(bool, bool)>,
    moved: Option<String>,
    moved_temp: Option<String>,
    existed: bool,
    missing_post: bool,
    multiple: bool,
    too_long: bool,
    malformed: bool,
    unauthorized: bool,
    bad_headers: bool,
    unknown_type: bool,
    too_large: bool,
    no_language: bool,
    last_modified: Option<u64>,
    etag: Option<EntityTag>,
}

impl Webmachine for Custom {
    fn service_available<S: HasAirshipState>(&self, _state: &mut S) -> bool {
        !self.unavailable
    }
    fn allowed_methods<S: HasAirshipState>(&self, _state: &mut S) -> Vec<Method> {
        match &self.allowed {
            Some(v) => v.clone(),
            None => vec![Method::Get, Method::Head, Method::Options, Method::Post, Method::Put, Method::Delete, Method::Patch],
        }
    }
    fn content_types_provided<S: HasAirshipState>(&self, _state: &mut S) -> Vec<MediaType> {
        match &self.provided {
            Some(v) => v.clone(),
            None => vec![media("text", "plain")],
        }
    }
    fn provide_body(&self, _req: &Request, index: usize) -> String {
        format!("body {}", index)
    }
    fn resource_exists<S: HasAirshipState>(&self, _state: &mut S) -> bool {
        !self.missing
    }
    fn forbidden<S: HasAirshipState>(&self, _state: &mut S, _req: &Request) -> bool {
        self.forbidden
    }
    fn is_conflict<S: HasAirshipState>(&self, _state: &mut S) -> bool {
        self.conflict
    }
    fn content_types_accepted<S: HasAirshipState>(&self, _state: &mut S) -> Vec<MediaType> {
        self.accepted.clone()
    }
    fn patch_content_types_accepted<S: HasAirshipState>(&self, _state: &mut S) -> Vec<MediaType> {
        self.accepted.clone()
    }
    fn process_post<S: HasAirshipState>(&self, _state: &mut S, _req: &Request) -> PostResponse {
        match &self.post {
            Some(segs) => PostResponse::PostCreate(segs.clone()),
            None => PostResponse::PostProcess(self.accepted.clone()),
        }
    }
    fn delete_resource<S: HasAirshipState>(&self, _state: &mut S, _req: &Request) -> bool {
        self.deleted.map(|d| d.0).unwrap_or(false)
    }
    fn delete_completed<S: HasAirshipState>(&self, _state: &mut S) -> bool {
        self.deleted.map(|d| d.1).unwrap_or(false)
    }
    fn moved_permanently<S: HasAirshipState>(&self, _state: &mut S) -> Option<String> {
        self.moved.clone()
    }
    fn moved_temporarily<S: HasAirshipState>(&self, _state: &mut S) -> Option<String> {
        self.moved_temp.clone()
    }
    fn previously_existed<S: HasAirshipState>(&self, _state: &mut S) -> bool {
        self.existed
    }
    fn allow_missing_post<S: HasAirshipState>(&self, _state: &mut S) -> bool {
        self.missing_post
    }
    fn multiple_choices<S: HasAirshipState>(&self, _state: &mut S) -> bool {
        self.multiple
    }
    fn uri_too_long<S: HasAirshipState>(&self, _state: &mut S, _uri: &String) -> bool {
        self.too_long
    }
    fn malformed_request<S: HasAirshipState>(&self, _state: &mut S, _req: &Request) -> bool {
        self.malformed
    }
    fn is_authorized<S: HasAirshipState>(&self, _state: &mut S, _req: &Request) -> bool {
        !self.unauthorized
    }
    fn valid_content_headers<S: HasAirshipState>(&self, _state: &mut S, _req: &Request) -> bool {
        !self.bad_headers
    }
    fn known_content_type<S: HasAirshipState>(&self, _state: &mut S, _req: &Request) -> bool {
        !self.unknown_type
    }
    fn entity_too_large<S: HasAirshipState>(&self, _state: &mut S, _req: &Request) -> bool {
        self.too_large
    }
    fn language_available<S: HasAirshipState>(&self, _state: &mut S, _l: &String) -> bool {
        !self.no_language
    }
    fn last_modified<S: HasAirshipState>(&self, _state: &mut S) -> Option<u64> {
        self.last_modified
    }
    fn generate_etag<S: HasAirshipState>(&self, _state: &mut S, _req: &Request) -> Option<EntityTag> {
        self.etag.clone()
    }
}

#[test]
fn options_lists_allowed_methods() {
    let (resp, trace) = run(&Resource, &Request::new(Method::Options, "/x"));
    assert_eq!(resp.status, 204);
    let allow = resp.headers.allow.unwrap();
    assert!(matches!(allow.as_slice(), [Method::Get, Method::Head, Method::Options]));
    assert_eq!(labels(&trace).last(), Some(&"b03"));
}

#[test]
fn method_not_allowed_lists_allowed_methods() {
    let r = Custom { allowed: Some(vec![Method::Get, Method::Head]), ..Default::default() };
    let (resp, trace) = run(&r, &Request::new(Method::Patch, "/x"));
    assert_eq!(resp.status, 405);
    let allow = resp.headers.allow.unwrap();
    assert!(matches!(allow.as_slice(), [Method::Get, Method::Head]));
    assert_eq!(labels(&trace).last(), Some(&"b10"));
}

#[test]
fn unacceptable_media_type_is_406() {
    let r = Custom { provided: Some(vec![media("text", "plain"), media("application", "json")]), ..Default::default() };
    let mut req = Request::new(Method::Get, "/x");
    req.accept = accept(vec![("application", "xml", 1000)]);
    let (resp, trace) = run(&r, &req);
    assert_eq!(resp.status, 406);
    assert_eq!(labels(&trace).last(), Some(&"c04"));
}

#[test]
fn best_quality_media_type_is_served() {
    let r = Custom { provided: Some(vec![media("text", "plain"), media("application", "json")]), ..Default::default() };
    let mut req = Request::new(Method::Get, "/x");
    req.accept = accept(vec![("application", "json", 800), ("text", "plain", 500)]);
    let (resp, trace) = run(&r, &req);
    assert_eq!(resp.status, 200);
    assert!(same_media(&resp.headers.content_type, "application", "json"));
    assert_eq!(resp.body.as_deref(), Some("body 1"));
    assert_eq!(labels(&trace).last(), Some(&"o18"));
}

#[test]
fn wildcard_accept_takes_first_provided() {
    let r = Custom { provided: Some(vec![media("text", "html"), media("application", "json")]), ..Default::default() };
    let mut req = Request::new(Method::Get, "/x");
    req.accept = accept(vec![("*", "*", 1000)]);
    let (resp, _) = run(&r, &req);
    assert!(same_media(&resp.headers.content_type, "text", "html"));
    let mut req = Request::new(Method::Get, "/x");
    req.accept = accept(vec![("application", "*", 1000)]);
    let (resp, _) = run(&r, &req);
    assert!(same_media(&resp.headers.content_type, "application", "json"));
}

#[test]
fn zero_quality_stops_negotiation() {
    let r = Custom { provided: Some(vec![media("text", "plain")]), ..Default::default() };
    let mut req = Request::new(Method::Get, "/x");
    req.accept = accept(vec![("text", "html", 900), ("text", "plain", 0), ("text", "plain", 500)]);
    let (resp, _) = run(&r, &req);
    assert_eq!(resp.status, 406);
}

#[test]
fn get_without_accept_serves_first_provided() {
    let (resp, trace) = run(&Resource, &Request::new(Method::Get, "/x"));
    assert_eq!(resp.status, 200);
    assert!(same_media(&resp.headers.content_type, "text", "plain"));
    assert_eq!(
        labels(&trace),
        vec!["b13", "b12", "b11", "b10", "b09", "b08", "b07", "b06", "b05", "b04", "b03", "c03", "d04", "e05", "f06", "g07", "g08", "h10", "i12", "l13", "m16", "n16", "o16", "o17", "o18"]
    );
}

#[test]
fn if_none_match_any_is_304() {
    let mut req = Request::new(Method::Get, "/x");
    req.if_none_match = Some(EtagCondition::Any);
    let (resp, trace) = run(&Resource, &req);
    assert_eq!(resp.status, 304);
    let l = labels(&trace);
    assert!(l.contains(&"i13") && l.contains(&"j18"));
}

#[test]
fn post_to_missing_resource_is_404() {
    let r = Custom { missing: true, ..Default::default() };
    let (resp, trace) = run(&r, &Request::new(Method::Post, "/x"));
    assert_eq!(resp.status, 404);
    assert_eq!(labels(&trace).last(), Some(&"m07"));
}

#[test]
fn get_of_missing_resource_is_404_at_l07() {
    let r = Custom { missing: true, ..Default::default() };
    let (resp, trace) = run(&r, &Request::new(Method::Get, "/x"));
    assert_eq!(resp.status, 404);
    assert_eq!(labels(&trace).last(), Some(&"l07"));
}

#[test]
fn unavailable_service_is_503_whatever_else() {
    let r = Custom { unavailable: true, forbidden: true, missing: true, ..Default::default() };
    let (resp, trace) = run(&r, &Request::new(Method::Delete, "/x"));
    assert_eq!(resp.status, 503);
    assert_eq!(labels(&trace), vec!["b13"]);
}

#[test]
fn trace_header_ends_with_terminal_node() {
    let r = Custom { forbidden: true, ..Default::default() };
    let (resp, trace) = run(&r, &Request::new(Method::Get, "/x"));
    assert_eq!(resp.status, 403);
    let header = resp.headers.airship_trace.unwrap();
    assert_eq!(header, "b13,b12,b11,b10,b09,b08,b07");
    assert_eq!(header.split(',').last(), Some(*labels(&trace).last().unwrap()));
    assert_eq!(resp.headers.airship_quip.as_deref(), Some("blame me if inappropriate"));
    assert!(resp.headers.server.is_some());
}

#[test]
fn unknown_method_is_501() {
    let (resp, _) = run(&Resource, &Request::new(Method::Extension("BREW".to_string()), "/x"));
    assert_eq!(resp.status, 501);
}

#[test]
fn early_halts_give_their_statuses() {
    let get = Request::new(Method::Get, "/x");
    let cases: Vec<(Custom, u16, &str)> = vec![
        (Custom { too_long: true, ..Default::default() }, 414, "b11"),
        (Custom { malformed: true, ..Default::default() }, 400, "b09"),
        (Custom { unauthorized: true, ..Default::default() }, 401, "b08"),
        (Custom { bad_headers: true, ..Default::default() }, 501, "b06"),
        (Custom { unknown_type: true, ..Default::default() }, 415, "b05"),
        (Custom { too_large: true, ..Default::default() }, 413, "b04"),
        (Custom { multiple: true, ..Default::default() }, 300, "o18"),
    ];
    for (r, status, last) in cases {
        let (resp, trace) = run(&r, &get);
        assert_eq!(resp.status, status);
        assert_eq!(labels(&trace).last(), Some(&last));
    }
}

#[test]
fn unavailable_language_is_406() {
    let r = Custom { no_language: true, ..Default::default() };
    let mut req = Request::new(Method::Get, "/x");
    req.accept_language = Some("de".to_string());
    let (resp, trace) = run(&r, &req);
    assert_eq!(resp.status, 406);
    assert_eq!(labels(&trace).last(), Some(&"d05"));
}

#[test]
fn charset_and_encoding_pass_through() {
    let mut req = Request::new(Method::Get, "/x");
    req.accept_charset = Some("utf-8".to_string());
    req.accept_encoding = Some("gzip".to_string());
    let (resp, trace) = run(&Resource, &req);
    assert_eq!(resp.status, 200);
    let l = labels(&trace);
    assert!(l.contains(&"e06") && l.contains(&"f07") && l.contains(&"g07"));
}

#[test]
fn if_match_any_on_missing_resource_is_412() {
    let r = Custom { missing: true, ..Default::default() };
    let mut req = Request::new(Method::Put, "/x");
    req.if_match = Some(EtagCondition::Any);
    let (resp, trace) = run(&r, &req);
    assert_eq!(resp.status, 412);
    assert_eq!(labels(&trace).last(), Some(&"h07"));
}

#[test]
fn empty_if_match_list_is_412() {
    let mut req = Request::new(Method::Get, "/x");
    req.if_match = Some(EtagCondition::Items(vec![]));
    let (resp, trace) = run(&Resource, &req);
    assert_eq!(resp.status, 412);
    assert_eq!(labels(&trace).last(), Some(&"g11"));
}

#[test]
fn unmodified_since_older_than_change_is_412() {
    let r = Custom { last_modified: Some(2000), ..Default::default() };
    let mut req = Request::new(Method::Get, "/x");
    req.if_unmodified_since = Some(1000);
    let (resp, trace) = run(&r, &req);
    assert_eq!(resp.status, 412);
    assert_eq!(labels(&trace).last(), Some(&"h12"));
}

#[test]
fn not_modified_since_is_304() {
    let r = Custom { last_modified: Some(1000), ..Default::default() };
    let mut req = Request::new(Method::Get, "/x");
    req.if_modified_since = Some(2000);
    let (resp, trace) = run(&r, &req);
    assert_eq!(resp.status, 304);
    assert_eq!(labels(&trace).last(), Some(&"l17"));
}

#[test]
fn modified_since_is_served() {
    let r = Custom { last_modified: Some(3000), ..Default::default() };
    let mut req = Request::new(Method::Get, "/x");
    req.if_modified_since = Some(2000);
    let (resp, _) = run(&r, &req);
    assert_eq!(resp.status, 200);
    assert_eq!(resp.headers.last_modified, Some(3000));
}

#[test]
fn if_modified_since_in_the_future_is_ignored() {
    let r = Custom { last_modified: Some(1000), ..Default::default() };
    let mut req = Request::new(Method::Get, "/x");
    req.if_modified_since = Some(5_000_000);
    let (resp, trace) = run(&r, &req);
    assert_eq!(resp.status, 200);
    assert!(labels(&trace).contains(&"l15"));
}

#[test]
fn if_none_match_any_on_put_is_412() {
    let mut req = Request::new(Method::Put, "/x");
    req.if_none_match = Some(EtagCondition::Any);
    let (resp, _) = run(&Custom::default(), &req);
    assert_eq!(resp.status, 412);
}

#[test]
fn moved_permanently_is_301_with_location() {
    let r = Custom { missing: true, existed: true, moved: Some("/new".to_string()), ..Default::default() };
    let (resp, trace) = run(&r, &Request::new(Method::Get, "/x"));
    assert_eq!(resp.status, 301);
    assert_eq!(resp.headers.location.as_deref(), Some("/new"));
    assert_eq!(labels(&trace).last(), Some(&"k05"));
}

#[test]
fn moved_temporarily_is_307() {
    let r = Custom { missing: true, existed: true, moved_temp: Some("/tmp".to_string()), ..Default::default() };
    let (resp, trace) = run(&r, &Request::new(Method::Get, "/x"));
    assert_eq!(resp.status, 307);
    assert_eq!(resp.headers.location.as_deref(), Some("/tmp"));
    assert_eq!(labels(&trace).last(), Some(&"l05"));
}

#[test]
fn gone_is_410() {
    let r = Custom { missing: true, existed: true, ..Default::default() };
    let (resp, trace) = run(&r, &Request::new(Method::Get, "/x"));
    assert_eq!(resp.status, 410);
    assert_eq!(labels(&trace).last(), Some(&"m05"));
}

#[test]
fn put_to_moved_resource_is_301() {
    let r = Custom { missing: true, moved: Some("/m".to_string()), ..Default::default() };
    let (resp, trace) = run(&r, &Request::new(Method::Put, "/x"));
    assert_eq!(resp.status, 301);
    assert_eq!(labels(&trace).last(), Some(&"i04"));
}

#[test]
fn put_with_conflict_is_409() {
    let r = Custom { conflict: true, ..Default::default() };
    let (resp, trace) = run(&r, &Request::new(Method::Put, "/x"));
    assert_eq!(resp.status, 409);
    assert_eq!(labels(&trace).last(), Some(&"o14"));
}

#[test]
fn put_with_unaccepted_type_is_415() {
    let r = Custom { accepted: vec![media("application", "json")], ..Default::default() };
    let mut req = Request::new(Method::Put, "/x");
    req.content_type = Some(media("text", "plain"));
    let (resp, _) = run(&r, &req);
    assert_eq!(resp.status, 415);
}

#[test]
fn put_with_accepted_type_is_201() {
    let r = Custom { accepted: vec![media("application", "json")], ..Default::default() };
    let mut req = Request::new(Method::Put, "/x");
    req.content_type = Some(media("application", "json"));
    let (resp, trace) = run(&r, &req);
    assert_eq!(resp.status, 201);
    let l = labels(&trace);
    assert!(l.contains(&"p11"));
    assert_eq!(l.last(), Some(&"o20"));
}

#[test]
fn post_create_is_201_with_location() {
    let r = Custom {
        accepted: vec![media("application", "json")],
        post: Some(vec!["a".to_string(), "b".to_string()]),
        ..Default::default()
    };
    let mut req = Request::new(Method::Post, "/x");
    req.content_type = Some(media("application", "json"));
    let (resp, trace) = run(&r, &req);
    assert_eq!(resp.status, 201);
    assert_eq!(resp.headers.location.as_deref(), Some("/x,a,b"));
    assert_eq!(labels(&trace).last(), Some(&"p11"));
}

#[test]
fn post_process_without_match_is_415() {
    let (resp, trace) = run(&Custom::default(), &Request::new(Method::Post, "/x"));
    assert_eq!(resp.status, 415);
    assert_eq!(labels(&trace).last(), Some(&"n11"));
}

#[test]
fn post_to_missing_resource_allowed_goes_to_n11() {
    let r = Custom { missing: true, missing_post: true, accepted: vec![media("text", "plain")], ..Default::default() };
    let mut req = Request::new(Method::Post, "/x");
    req.content_type = Some(media("text", "plain"));
    let (resp, trace) = run(&r, &req);
    assert_eq!(resp.status, 201);
    assert!(labels(&trace).contains(&"n11"));
}

#[test]
fn delete_outcomes() {
    let cases: Vec<(Option<(bool, bool)>, u16)> = vec![(Some((true, false)), 202), (Some((false, true)), 500), (None, 500), (Some((true, true)), 201)];
    for (deleted, status) in cases {
        let r = Custom { deleted, ..Default::default() };
        let (resp, trace) = run(&r, &Request::new(Method::Delete, "/x"));
        assert_eq!(resp.status, status);
        assert!(labels(&trace).contains(&"m20"));
    }
}

#[test]
fn patch_with_accepted_type_goes_on() {
    let r = Custom { accepted: vec![media("text", "plain")], ..Default::default() };
    let mut req = Request::new(Method::Patch, "/x");
    req.content_type = Some(media("text", "plain"));
    let (resp, _) = run(&r, &req);
    assert_eq!(resp.status, 201);
    let mut req = Request::new(Method::Patch, "/x");
    req.content_type = Some(media("text", "html"));
    let (resp, trace) = run(&r, &req);
    assert_eq!(resp.status, 415);
    assert_eq!(labels(&trace).last(), Some(&"o17"));
}

#[test]
fn success_carries_etag() {
    let r = Custom {
        etag: Some(EntityTag { weak: false, tag: "v1".to_string() }),
        last_modified: Some(77),
        provided: Some(vec![media("text", "html"), media("text", "plain")]),
        ..Default::default()
    };
    let (resp, _) = run(&r, &Request::new(Method::Get, "/x"));
    assert_eq!(resp.status, 200);
    assert_eq!(resp.headers.etag.map(|e| e.tag), Some("v1".to_string()));
    assert_eq!(resp.headers.last_modified, Some(77));
    assert!(same_media(&resp.headers.content_type, "text", "html"));
    assert_eq!(resp.body.as_deref(), Some("body 0"));
}

#[test]
fn get_with_nothing_provided_is_500() {
    let r = Custom { provided: Some(vec![]), ..Default::default() };
    let (resp, _) = run(&r, &Request::new(Method::Get, "/x"));
    assert_eq!(resp.status, 500);
}

struct Redirecting {
    create: bool,
}

impl Webmachine for Redirecting {
    fn allowed_methods<S: HasAirshipState>(&self, _state: &mut S) -> Vec<Method> {
        vec![Method::Post]
    }
    fn content_types_accepted<S: HasAirshipState>(&self, _state: &mut S) -> Vec<MediaType> {
        vec![media("application", "json")]
    }
    fn process_post<S: HasAirshipState>(&self, _state: &mut S, _req: &Request) -> PostResponse {
        if self.create {
            PostResponse::PostCreateRedirect(vec!["9".to_string()])
        } else {
            PostResponse::PostProcessRedirect(vec![media("text", "plain"), media("application", "json")])
        }
    }
    fn process_redirect(&self, _req: &Request, index: usize) -> String {
        format!("/done/{}", index)
    }
}

#[test]
fn post_create_redirect_is_303() {
    let mut req = Request::new(Method::Post, "/orders");
    req.content_type = Some(media("application", "json"));
    let (resp, trace) = run(&Redirecting { create: true }, &req);
    assert_eq!(resp.status, 303);
    assert_eq!(resp.headers.location.as_deref(), Some("/orders,9"));
    assert_eq!(labels(&trace).last(), Some(&"n11"));
}

#[test]
fn post_process_redirect_uses_action_location() {
    let mut req = Request::new(Method::Post, "/orders");
    req.content_type = Some(media("application", "json"));
    let (resp, _) = run(&Redirecting { create: false }, &req);
    assert_eq!(resp.status, 303);
    assert_eq!(resp.headers.location.as_deref(), Some("/done/1"));
    let mut req = Request::new(Method::Post, "/orders");
    req.content_type = Some(media("image", "png"));
    let (resp, _) = run(&Redirecting { create: false }, &req);
    assert_eq!(resp.status, 415);
}
