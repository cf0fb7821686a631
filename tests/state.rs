use airship::decision::{
    append_request_path, choose_served, map_accept_media, map_content_media, next_step, trace_header, Answer, Node,
    PostKind, Rendering, Step,
};
use airship::http::{MediaType, Method, QualityItem, Request, ResponseHeader};
use airship::types::{
    get_matched_content_type, get_response, get_trace, is_response_empty, matched_content_type, request_time,
    set_response_body, set_response_header, trace, AirshipState, RequestState,
};

fn media(t: &str, s: &str) -> MediaType {
    MediaType::new(t, s)
}

fn q(t: &str, s: &str, quality: u16) -> QualityItem {
    QualityItem { item: media(t, s), quality }
}

#[test]
fn new_state_takes_the_clock() {
    let st = AirshipState::new();
    assert!(st.request_time > 1_500_000_000);
    assert!(st.decision_trace.is_empty());
    assert!(st.response.is_some());
}

#[test]
fn state_helpers_read_and_write() {
    let mut st = RequestState(AirshipState::arrived_at(42));
    assert_eq!(request_time(&st), 42);
    trace(&mut st, Node::B13);
    trace(&mut st, Node::B12);
    assert_eq!(get_trace(&st), &vec![Node::B13, Node::B12]);
    assert!(is_response_empty(&st));
    set_response_body(&mut st, String::new());
    assert!(is_response_empty(&st));
    set_response_body(&mut st, "x".to_string());
    assert!(!is_response_empty(&st));
    set_response_header(&mut st, ResponseHeader::Location("/a".to_string()));
    matched_content_type(&mut st, Some((media("text", "html"), 3)));
    let m = get_matched_content_type(&mut st).unwrap();
    assert_eq!((m.0.type_.as_str(), m.0.subtype.as_str(), m.1), ("text", "html", 3));
    assert!(get_matched_content_type(&mut st).is_none());
    let resp = get_response(&mut st);
    assert_eq!(resp.headers.location.as_deref(), Some("/a"));
    assert_eq!(resp.body.as_deref(), Some("x"));
    assert!(!is_response_empty(&st));
    let again = get_response(&mut st);
    assert_eq!(again.status, 200);
    assert!(again.body.is_none());
}

#[test]
fn trace_header_joins_labels() {
    assert_eq!(trace_header(&vec![]), "");
    assert_eq!(trace_header(&vec![Node::B13]), "b13");
    assert_eq!(trace_header(&vec![Node::B13, Node::B12, Node::P11]), "b13,b12,p11");
}

#[test]
fn created_location_appends_segments() {
    let req = Request::new(Method::Post, "/items");
    assert_eq!(append_request_path(&req, &vec!["7".to_string(), "x".to_string()]), "/items,7,x");
    assert_eq!(append_request_path(&req, &vec![]), "/items,");
}

#[test]
fn accept_matching_prefers_quality_then_order() {
    let provided = vec![media("text", "plain"), media("application", "json")];
    assert_eq!(map_accept_media(&provided, &vec![q("application", "json", 800), q("text", "plain", 500)]), Some(1));
    assert_eq!(map_accept_media(&provided, &vec![q("text", "plain", 500), q("application", "json", 800)]), Some(1));
    assert_eq!(map_accept_media(&provided, &vec![q("*", "*", 1000)]), Some(0));
    assert_eq!(map_accept_media(&provided, &vec![q("application", "*", 300)]), Some(1));
    assert_eq!(map_accept_media(&provided, &vec![q("image", "png", 1000)]), None);
    assert_eq!(map_accept_media(&provided, &vec![q("text", "plain", 0), q("application", "json", 900)]), None);
    assert_eq!(map_accept_media(&provided, &vec![]), None);
    assert_eq!(map_accept_media(&provided, &vec![q("text", "plain", 700), q("application", "json", 700)]), Some(0));
}

#[test]
fn content_type_matching_takes_first_equal() {
    let accepted = vec![media("text", "plain"), media("application", "json"), media("text", "plain")];
    assert_eq!(map_content_media(&accepted, &media("text", "plain")), Some(0));
    assert_eq!(map_content_media(&accepted, &media("application", "json")), Some(1));
    assert_eq!(map_content_media(&accepted, &media("text", "*")), None);
}

#[test]
fn next_step_follows_the_answers() {
    let get = Request::new(Method::Get, "/x");
    assert_eq!(next_step(Node::B13, &get, 0, &Answer::Flag(false)), Step::Halt(503));
    assert_eq!(next_step(Node::B13, &get, 0, &Answer::Flag(true)), Step::Next(Node::B12));
    let allowed = Answer::Methods(vec![Method::Get, Method::Head]);
    assert_eq!(next_step(Node::B10, &get, 0, &allowed), Step::Next(Node::B09));
    let patch = Request::new(Method::Patch, "/x");
    assert_eq!(next_step(Node::B10, &patch, 0, &allowed), Step::Halt(405));
    let mut cond = Request::new(Method::Get, "/x");
    cond.if_unmodified_since = Some(100);
    assert_eq!(next_step(Node::H12, &cond, 0, &Answer::Modified(Some(200))), Step::Halt(412));
    assert_eq!(next_step(Node::H12, &cond, 0, &Answer::Modified(Some(50))), Step::Next(Node::I12));
    let mut ims = Request::new(Method::Get, "/x");
    ims.if_modified_since = Some(100);
    assert_eq!(next_step(Node::L17, &ims, 0, &Answer::Modified(Some(200))), Step::Next(Node::M16));
    assert_eq!(next_step(Node::L17, &ims, 0, &Answer::Modified(Some(100))), Step::Halt(304));
    assert_eq!(next_step(Node::M20, &get, 0, &Answer::Flags(true, true)), Step::Next(Node::O20));
    assert_eq!(next_step(Node::M20, &get, 0, &Answer::Flags(true, false)), Step::Halt(202));
    assert_eq!(next_step(Node::M20, &get, 0, &Answer::Flags(false, true)), Step::Halt(500));
    assert_eq!(next_step(Node::O20, &get, 0, &Answer::Flag(true)), Step::Halt(201));
    assert_eq!(next_step(Node::P11, &get, 0, &Answer::Flag(false)), Step::Next(Node::O20));
    assert_eq!(next_step(Node::I04, &get, 0, &Answer::Redirect(Some("/m".to_string()))), Step::Halt(301));
    assert_eq!(next_step(Node::O14, &get, 0, &Answer::Conflict(true, vec![])), Step::Halt(409));
    let mut put = Request::new(Method::Put, "/x");
    put.content_type = Some(media("text", "plain"));
    assert_eq!(next_step(Node::O14, &put, 0, &Answer::Conflict(false, vec![media("text", "plain")])), Step::Next(Node::P11));
    assert_eq!(next_step(Node::N11, &put, 0, &Answer::Posted(PostKind::CreateRedirect, vec![media("text", "plain")], Some("/x,1".to_string()))), Step::Halt(303));
    assert_eq!(next_step(Node::N11, &put, 0, &Answer::Posted(PostKind::Process, vec![], None)), Step::Halt(415));
}

#[test]
fn served_type_falls_back_to_first_provided() {
    let provided = vec![media("text", "html"), media("application", "json")];
    let (step, chosen) = choose_served(false, &Method::Get, None, &provided);
    assert_eq!(step, Step::Halt(200));
    let (m, i) = chosen.unwrap();
    assert_eq!((m.type_.as_str(), m.subtype.as_str(), i), ("text", "html", 0));
    let (_, chosen) = choose_served(false, &Method::Head, Some((media("application", "json"), 1)), &provided);
    assert_eq!(chosen.unwrap().1, 1);
    assert_eq!(choose_served(true, &Method::Get, None, &provided).0, Step::Halt(300));
    assert_eq!(choose_served(false, &Method::Get, None, &vec![]).0, Step::Halt(500));
    let (step, chosen) = choose_served(false, &Method::Put, None, &vec![]);
    assert_eq!(step, Step::Halt(200));
    assert!(chosen.is_none());
}

#[test]
fn next_step_at_o18_follows_the_rendering() {
    let get = Request::new(Method::Get, "/x");
    let put = Request::new(Method::Put, "/x");
    let rendering = |multiple: bool, chosen: Option<(MediaType, usize)>| Answer::Rendered(Rendering {
        multiple,
        provided: vec![],
        chosen,
        body: None,
        etag: None,
        modified: None,
    });
    assert_eq!(next_step(Node::O18, &get, 0, &rendering(true, None)), Step::Halt(300));
    assert_eq!(next_step(Node::O18, &get, 0, &rendering(false, None)), Step::Halt(500));
    assert_eq!(next_step(Node::O18, &get, 0, &rendering(false, Some((media("text", "plain"), 0)))), Step::Halt(200));
    assert_eq!(next_step(Node::O18, &put, 0, &rendering(false, None)), Step::Halt(200));
}
