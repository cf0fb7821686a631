//! The decision graph: from the request and the resource's answers to a
//! status code, one node at a time.
use vstd::prelude::*;

use crate::http::{
    EntityTag, EtagCondition, MediaType, Method, QualityItem, Request, Response, ResponseHeader,
    ResponseHeaders,
    blank_response, contains_method, lists_method, same_media, same_media_spec,
};
use crate::resource::{PostResponse, Webmachine};
use crate::types::{
    AirshipState, HasAirshipState, get_matched_content_type, get_response, get_trace,
    is_response_empty, matched_content_type, record_answer, request_time, response_is_empty, response_with_header, set_response_body,
    set_response_header, trace,
};

verus! {

/// A decision node of the graph.
#[derive(Clone, Copy, Debug, PartialEq, Eq, Structural)]
pub enum Node {
    B13,
    B12,
    B11,
    B10,
    B09,
    B08,
    B07,
    B06,
    B05,
    B04,
    B03,
    C03,
    C04,
    D04,
    D05,
    E05,
    E06,
    F06,
    F07,
    G07,
    G08,
    G09,
    G11,
    H07,
    H10,
    H11,
    H12,
    I04,
    I07,
    I12,
    I13,
    J18,
    K05,
    K07,
    K13,
    L05,
    L07,
    L13,
    L14,
    L15,
    L17,
    M05,
    M07,
    M16,
    M20,
    N05,
    N11,
    N16,
    O14,
    O16,
    O17,
    O18,
    O20,
    P03,
    P11,
}

impl Node {
    /// The node's label, such as `b13`.
    pub open spec fn label_spec(self) -> Seq<char> {
        match self {
            Node::B13 => "b13"@,
            Node::B12 => "b12"@,
            Node::B11 => "b11"@,
            Node::B10 => "b10"@,
            Node::B09 => "b09"@,
            Node::B08 => "b08"@,
            Node::B07 => "b07"@,
            Node::B06 => "b06"@,
            Node::B05 => "b05"@,
            Node::B04 => "b04"@,
            Node::B03 => "b03"@,
            Node::C03 => "c03"@,
            Node::C04 => "c04"@,
            Node::D04 => "d04"@,
            Node::D05 => "d05"@,
            Node::E05 => "e05"@,
            Node::E06 => "e06"@,
            Node::F06 => "f06"@,
            Node::F07 => "f07"@,
            Node::G07 => "g07"@,
            Node::G08 => "g08"@,
            Node::G09 => "g09"@,
            Node::G11 => "g11"@,
            Node::H07 => "h07"@,
            Node::H10 => "h10"@,
            Node::H11 => "h11"@,
            Node::H12 => "h12"@,
            Node::I04 => "i04"@,
            Node::I07 => "i07"@,
            Node::I12 => "i12"@,
            Node::I13 => "i13"@,
            Node::J18 => "j18"@,
            Node::K05 => "k05"@,
            Node::K07 => "k07"@,
            Node::K13 => "k13"@,
            Node::L05 => "l05"@,
            Node::L07 => "l07"@,
            Node::L13 => "l13"@,
            Node::L14 => "l14"@,
            Node::L15 => "l15"@,
            Node::L17 => "l17"@,
            Node::M05 => "m05"@,
            Node::M07 => "m07"@,
            Node::M16 => "m16"@,
            Node::M20 => "m20"@,
            Node::N05 => "n05"@,
            Node::N11 => "n11"@,
            Node::N16 => "n16"@,
            Node::O14 => "o14"@,
            Node::O16 => "o16"@,
            Node::O17 => "o17"@,
            Node::O18 => "o18"@,
            Node::O20 => "o20"@,
            Node::P03 => "p03"@,
            Node::P11 => "p11"@,
        }
    }

    /// The node's label, such as `b13`.
    pub fn label(&self) -> (r: &'static str)
        ensures
            r@ == self.label_spec(),
    {
        match self {
            Node::B13 => "b13",
            Node::B12 => "b12",
            Node::B11 => "b11",
            Node::B10 => "b10",
            Node::B09 => "b09",
            Node::B08 => "b08",
            Node::B07 => "b07",
            Node::B06 => "b06",
            Node::B05 => "b05",
            Node::B04 => "b04",
            Node::B03 => "b03",
            Node::C03 => "c03",
            Node::C04 => "c04",
            Node::D04 => "d04",
            Node::D05 => "d05",
            Node::E05 => "e05",
            Node::E06 => "e06",
            Node::F06 => "f06",
            Node::F07 => "f07",
            Node::G07 => "g07",
            Node::G08 => "g08",
            Node::G09 => "g09",
            Node::G11 => "g11",
            Node::H07 => "h07",
            Node::H10 => "h10",
            Node::H11 => "h11",
            Node::H12 => "h12",
            Node::I04 => "i04",
            Node::I07 => "i07",
            Node::I12 => "i12",
            Node::I13 => "i13",
            Node::J18 => "j18",
            Node::K05 => "k05",
            Node::K07 => "k07",
            Node::K13 => "k13",
            Node::L05 => "l05",
            Node::L07 => "l07",
            Node::L13 => "l13",
            Node::L14 => "l14",
            Node::L15 => "l15",
            Node::L17 => "l17",
            Node::M05 => "m05",
            Node::M07 => "m07",
            Node::M16 => "m16",
            Node::M20 => "m20",
            Node::N05 => "n05",
            Node::N11 => "n11",
            Node::N16 => "n16",
            Node::O14 => "o14",
            Node::O16 => "o16",
            Node::O17 => "o17",
            Node::O18 => "o18",
            Node::O20 => "o20",
            Node::P03 => "p03",
            Node::P11 => "p11",
        }
    }

    /// A bound on the number of nodes that can follow this one: every edge
    /// of the graph leads to a node of smaller rank.
    pub open spec fn rank(self) -> nat {
        match self {
            Node::B13 => 39,
            Node::B12 => 38,
            Node::B11 => 37,
            Node::B10 => 36,
            Node::B09 => 35,
            Node::B08 => 34,
            Node::B07 => 33,
            Node::B06 => 32,
            Node::B05 => 31,
            Node::B04 => 30,
            Node::B03 => 29,
            Node::C03 => 28,
            Node::C04 => 27,
            Node::D04 => 26,
            Node::D05 => 25,
            Node::E05 => 24,
            Node::E06 => 23,
            Node::F06 => 22,
            Node::F07 => 21,
            Node::G07 => 20,
            Node::G08 => 19,
            Node::G09 => 18,
            Node::G11 => 17,
            Node::H07 => 10,
            Node::H10 => 16,
            Node::H11 => 15,
            Node::H12 => 14,
            Node::I04 => 4,
            Node::I07 => 9,
            Node::I12 => 13,
            Node::I13 => 12,
            Node::J18 => 0,
            Node::K05 => 7,
            Node::K07 => 8,
            Node::K13 => 11,
            Node::L05 => 6,
            Node::L07 => 5,
            Node::L13 => 10,
            Node::L14 => 9,
            Node::L15 => 8,
            Node::L17 => 7,
            Node::M05 => 5,
            Node::M07 => 4,
            Node::M16 => 6,
            Node::M20 => 2,
            Node::N05 => 4,
            Node::N11 => 3,
            Node::N16 => 5,
            Node::O14 => 3,
            Node::O16 => 4,
            Node::O17 => 2,
            Node::O18 => 0,
            Node::O20 => 1,
            Node::P03 => 3,
            Node::P11 => 2,
        }
    }
}

/// The four ways of handling a `POST` that `process_post` can choose.
#[derive(Clone, Copy, Debug, PartialEq, Eq, Structural)]
pub enum PostKind {
    Create,
    CreateRedirect,
    Process,
    ProcessRedirect,
}

/// What a node learned before it branched: the value of the callback it
/// consulted, or of the part of the response it read.
pub enum Answer {
    /// The node read the request alone.
    Unasked,
    Flag(bool),
    Flags(bool, bool),
    Methods(Vec<Method>),
    Types(Vec<MediaType>),
    Redirect(Option<String>),
    Modified(Option<u64>),
    /// `is_conflict`, and the media types accepted when there is none.
    Conflict(bool, Vec<MediaType>),
    /// How `process_post` chose to handle the request, the media types
    /// accepted for it, and the location set on the response, if any.
    Posted(PostKind, Vec<MediaType>, Option<String>),
    /// What `o18` learned and made.
    Rendered(Rendering),
}

/// What `o18` learned and made: whether the resource offers multiple
/// choices, the media types it provided (when it was asked), the media type
/// served with its place, the body made for it, and the entity tag and
/// modification time put on the response.
pub struct Rendering {
    pub multiple: bool,
    pub provided: Vec<MediaType>,
    pub chosen: Option<(MediaType, usize)>,
    pub body: Option<String>,
    pub etag: Option<EntityTag>,
    pub modified: Option<u64>,
}

/// Where a node leads: to another node, or to a response with a status.
#[derive(Clone, Copy, Debug, PartialEq, Eq, Structural)]
pub enum Step {
    Next(Node),
    Halt(u16),
}

/// The flag that a node learned (false for any other answer).
pub open spec fn flag(a: Answer) -> bool {
    match a {
        Answer::Flag(b) => b,
        _ => false,
    }
}

/// One of the methods the graph knows: all but extension methods.
pub open spec fn known_method(m: Method) -> bool {
    !(m is Extension)
}

/// The items of the request's `Accept` header (none without one).
pub open spec fn accept_items(req: Request) -> Seq<QualityItem> {
    match req.accept {
        Some(v) => v@,
        None => Seq::empty(),
    }
}

/// The text is `*`.
pub open spec fn is_star(s: Seq<char>) -> bool {
    s == seq!['*']
}

/// The media range `a` covers the media type `p`.
pub open spec fn range_covers(a: MediaType, p: MediaType) -> bool {
    (is_star(a.type_@) && is_star(a.subtype@)) || (a.type_@ == p.type_@ && (a.subtype@
        == p.subtype@ || is_star(a.subtype@)))
}

/// The first place in `ps` that the range `a` covers.
pub open spec fn first_covered(a: MediaType, ps: Seq<MediaType>) -> Option<int>
    decreases ps.len(),
{
    if ps.len() == 0 {
        None
    } else {
        match first_covered(a, ps.drop_last()) {
            Some(j) => Some(j),
            None => if range_covers(a, ps.last()) {
                Some(ps.len() - 1)
            } else {
                None
            },
        }
    }
}

/// Reads `Accept` items left to right: (an item of quality zero was met, the
/// best quality so far, the place in `ps` chosen so far). An item replaces
/// the choice when its quality is higher than the best so far and it covers
/// some provided type, the first one it covers; reading stops at an item of
/// quality zero.
pub open spec fn accept_scan(acc: Seq<QualityItem>, ps: Seq<MediaType>) -> (bool, u16, Option<int>)
    decreases acc.len(),
{
    if acc.len() == 0 {
        (false, 0, None)
    } else {
        let prev = accept_scan(acc.drop_last(), ps);
        let a = acc.last();
        if prev.0 {
            prev
        } else if a.quality == 0 {
            (true, prev.1, prev.2)
        } else if a.quality > prev.1 && first_covered(a.item, ps) is Some {
            (false, a.quality, first_covered(a.item, ps))
        } else {
            prev
        }
    }
}

/// The place in `ps` of the media type that `Accept` negotiation chooses.
pub open spec fn negotiate(acc: Seq<QualityItem>, ps: Seq<MediaType>) -> Option<int> {
    accept_scan(acc, ps).2
}

/// The first place in `ps` that holds the media type `ct`.
pub open spec fn first_equal(ps: Seq<MediaType>, ct: MediaType) -> Option<int>
    decreases ps.len(),
{
    if ps.len() == 0 {
        None
    } else {
        match first_equal(ps.drop_last(), ct) {
            Some(j) => Some(j),
            None => if same_media_spec(ps.last(), ct) {
                Some(ps.len() - 1)
            } else {
                None
            },
        }
    }
}

/// The place in `ps` of the request's `Content-Type`, if it has one.
pub open spec fn content_match(ps: Seq<MediaType>, req: Request) -> Option<int> {
    match req.content_type {
        Some(ct) => first_equal(ps, ct),
        None => None,
    }
}

/// The condition is an empty list of entity tags.
pub open spec fn etags_empty(c: EtagCondition) -> bool {
    match c {
        EtagCondition::Items(v) => v@.len() == 0,
        EtagCondition::Any => false,
    }
}

/// Where `node` leads for the request `req` that arrived at `now`, given
/// what the node learned.
#[verifier::opaque]
pub open spec fn step_spec(node: Node, req: Request, now: u64, ans: Answer) -> Step {
    let m = req.method;
    match node {
        Node::B13 => if flag(ans) { Step::Next(Node::B12) } else { Step::Halt(503) },
        Node::B12 => if known_method(m) { Step::Next(Node::B11) } else { Step::Halt(501) },
        Node::B11 => if flag(ans) { Step::Halt(414) } else { Step::Next(Node::B10) },
        Node::B10 => match ans {
            Answer::Methods(ms) => if lists_method(ms@, m) {
                Step::Next(Node::B09)
            } else {
                Step::Halt(405)
            },
            _ => Step::Halt(405),
        },
        Node::B09 => if flag(ans) { Step::Halt(400) } else { Step::Next(Node::B08) },
        Node::B08 => if flag(ans) { Step::Next(Node::B07) } else { Step::Halt(401) },
        Node::B07 => if flag(ans) { Step::Halt(403) } else { Step::Next(Node::B06) },
        Node::B06 => if flag(ans) { Step::Next(Node::B05) } else { Step::Halt(501) },
        Node::B05 => if flag(ans) { Step::Next(Node::B04) } else { Step::Halt(415) },
        Node::B04 => if flag(ans) { Step::Halt(413) } else { Step::Next(Node::B03) },
        Node::B03 => if m is Options { Step::Halt(204) } else { Step::Next(Node::C03) },
        Node::C03 => if req.accept is Some { Step::Next(Node::C04) } else { Step::Next(Node::D04) },
        Node::C04 => match ans {
            Answer::Types(ps) => if negotiate(accept_items(req), ps@) is Some {
                Step::Next(Node::D04)
            } else {
                Step::Halt(406)
            },
            _ => Step::Halt(406),
        },
        Node::D04 => if req.accept_language is Some {
            Step::Next(Node::D05)
        } else {
            Step::Next(Node::E05)
        },
        Node::D05 => if flag(ans) { Step::Next(Node::E05) } else { Step::Halt(406) },
        Node::E05 => if req.accept_charset is Some {
            Step::Next(Node::E06)
        } else {
            Step::Next(Node::F06)
        },
        Node::E06 => Step::Next(Node::F06),
        Node::F06 => if req.accept_encoding is Some {
            Step::Next(Node::F07)
        } else {
            Step::Next(Node::G07)
        },
        Node::F07 => Step::Next(Node::G07),
        Node::G07 => if flag(ans) { Step::Next(Node::G08) } else { Step::Next(Node::H07) },
        Node::G08 => if req.if_match is Some { Step::Next(Node::G09) } else { Step::Next(Node::H10) },
        Node::G09 => match req.if_match {
            Some(EtagCondition::Items(_)) => Step::Next(Node::G11),
            _ => Step::Next(Node::H10),
        },
        Node::G11 => match req.if_match {
            Some(c) => if etags_empty(c) { Step::Halt(412) } else { Step::Next(Node::H10) },
            None => Step::Next(Node::H10),
        },
        Node::H07 => match req.if_match {
            Some(EtagCondition::Any) => Step::Halt(412),
            _ => Step::Next(Node::I07),
        },
        Node::H10 => if req.if_unmodified_since is Some {
            Step::Next(Node::H11)
        } else {
            Step::Next(Node::I12)
        },
        Node::H11 => Step::Next(Node::H12),
        Node::H12 => match (req.if_unmodified_since, ans) {
            (Some(since), Answer::Modified(Some(lm))) => if lm > since {
                Step::Halt(412)
            } else {
                Step::Next(Node::I12)
            },
            _ => Step::Next(Node::I12),
        },
        Node::I04 => match ans {
            Answer::Redirect(Some(_)) => Step::Halt(301),
            _ => Step::Next(Node::P03),
        },
        Node::I07 => if m is Put { Step::Next(Node::I04) } else { Step::Next(Node::K07) },
        Node::I12 => if req.if_none_match is Some {
            Step::Next(Node::I13)
        } else {
            Step::Next(Node::L13)
        },
        Node::I13 => match req.if_none_match {
            Some(EtagCondition::Items(_)) => Step::Next(Node::K13),
            _ => Step::Next(Node::J18),
        },
        Node::J18 => if m is Get || m is Head { Step::Halt(304) } else { Step::Halt(412) },
        Node::K05 => match ans {
            Answer::Redirect(Some(_)) => Step::Halt(301),
            _ => Step::Next(Node::L05),
        },
        Node::K07 => if flag(ans) { Step::Next(Node::K05) } else { Step::Next(Node::L07) },
        Node::K13 => match req.if_none_match {
            Some(c) => if etags_empty(c) { Step::Next(Node::L13) } else { Step::Next(Node::J18) },
            None => Step::Next(Node::L13),
        },
        Node::L05 => match ans {
            Answer::Redirect(Some(_)) => Step::Halt(307),
            _ => Step::Next(Node::M05),
        },
        Node::L07 => if m is Post { Step::Next(Node::M07) } else { Step::Halt(404) },
        Node::L13 => if req.if_modified_since is Some {
            Step::Next(Node::L14)
        } else {
            Step::Next(Node::M16)
        },
        Node::L14 => Step::Next(Node::L15),
        Node::L15 => match req.if_modified_since {
            Some(since) => if since > now { Step::Next(Node::M16) } else { Step::Next(Node::L17) },
            None => Step::Next(Node::L17),
        },
        Node::L17 => match (req.if_modified_since, ans) {
            (Some(since), Answer::Modified(Some(lm))) => if lm > since {
                Step::Next(Node::M16)
            } else {
                Step::Halt(304)
            },
            _ => Step::Halt(304),
        },
        Node::M05 => if m is Post { Step::Next(Node::N05) } else { Step::Halt(410) },
        Node::M07 => if flag(ans) { Step::Next(Node::N11) } else { Step::Halt(404) },
        Node::M16 => if m is Delete { Step::Next(Node::M20) } else { Step::Next(Node::N16) },
        Node::M20 => match ans {
            Answer::Flags(true, true) => Step::Next(Node::O20),
            Answer::Flags(true, false) => Step::Halt(202),
            _ => Step::Halt(500),
        },
        Node::N05 => if flag(ans) { Step::Next(Node::N11) } else { Step::Halt(410) },
        Node::N11 => match ans {
            Answer::Posted(kind, accepted, _) => if content_match(accepted@, req) is Some {
                match kind {
                    PostKind::Create => Step::Next(Node::P11),
                    PostKind::Process => Step::Next(Node::P11),
                    _ => Step::Halt(303),
                }
            } else {
                Step::Halt(415)
            },
            _ => Step::Halt(415),
        },
        Node::N16 => if m is Post { Step::Next(Node::N11) } else { Step::Next(Node::O16) },
        Node::O14 => match ans {
            Answer::Conflict(true, _) => Step::Halt(409),
            Answer::Conflict(false, accepted) => if content_match(accepted@, req) is Some {
                Step::Next(Node::P11)
            } else {
                Step::Halt(415)
            },
            _ => Step::Halt(415),
        },
        Node::O16 => if m is Put { Step::Next(Node::O14) } else { Step::Next(Node::O17) },
        Node::O17 => if m is Patch {
            match ans {
                Answer::Types(accepted) => if content_match(accepted@, req) is Some {
                    Step::Next(Node::O20)
                } else {
                    Step::Halt(415)
                },
                _ => Step::Halt(415),
            }
        } else {
            Step::Next(Node::O18)
        },
        Node::O18 => match ans {
            Answer::Rendered(x) => if x.multiple {
                Step::Halt(300)
            } else if (m is Get || m is Head) && x.chosen is None {
                Step::Halt(500)
            } else {
                Step::Halt(200)
            },
            _ => Step::Halt(500),
        },
        Node::O20 => if flag(ans) { Step::Halt(201) } else { Step::Next(Node::O18) },
        Node::P03 => match ans {
            Answer::Conflict(true, _) => Step::Halt(409),
            Answer::Conflict(false, accepted) => if content_match(accepted@, req) is Some {
                Step::Next(Node::P11)
            } else {
                Step::Halt(415)
            },
            _ => Step::Halt(415),
        },
        Node::P11 => if flag(ans) { Step::Halt(201) } else { Step::Next(Node::O20) },
    }
}

/// A place, as an integer.
pub open spec fn opt_index(o: Option<usize>) -> Option<int> {
    match o {
        Some(j) => Some(j as int),
        None => None,
    }
}

/// Whether `s` is `*`.
fn is_star_text(s: &String) -> (r: bool)
    ensures
        r == is_star(s@),
{
    let t = s.as_str();
    if t.unicode_len() != 1 {
        return false;
    }
    let c = t.get_char(0);
    proof {
        if c == '*' {
            assert(s@ =~= seq!['*']);
        }
    }
    c == '*'
}

/// Whether the media range `a` covers the media type `p`.
fn covers(a: &MediaType, p: &MediaType) -> (r: bool)
    ensures
        r == range_covers(*a, *p),
{
    (is_star_text(&a.type_) && is_star_text(&a.subtype)) || (a.type_ == p.type_ && (a.subtype
        == p.subtype || is_star_text(&a.subtype)))
}

/// The first place in `ps` that the range `a` covers.
fn first_covered_exec(a: &MediaType, ps: &Vec<MediaType>) -> (r: Option<usize>)
    ensures
        opt_index(r) == first_covered(*a, ps@),
        r matches Some(j) ==> j < ps.len(),
{
    let mut j: usize = 0;
    while j < ps.len()
        invariant
            0 <= j <= ps.len(),
            first_covered(*a, ps@.take(j as int)) is None,
        decreases ps.len() - j,
    {
        assert(ps@.take(j + 1).drop_last() =~= ps@.take(j as int));
        if covers(a, &ps[j]) {
            assert(ps@.take(j + 1).last() == ps@[j as int]);
            assert(first_covered(*a, ps@.take(j + 1)) == Some(j as int));
            let k = j + 1;
            assert(first_covered(*a, ps@.take(k as int)) == Some(j as int));
            proof { lemma_first_covered_extends(*a, ps@, k as int); }
            return Some(j);
        }
        j = j + 1;
    }
    assert(ps@.take(ps.len() as int) =~= ps@);
    None
}

/// A place found in a prefix stays the first place in the whole list.
proof fn lemma_first_covered_extends(a: MediaType, ps: Seq<MediaType>, k: int)
    requires
        0 <= k <= ps.len(),
        first_covered(a, ps.take(k)) is Some,
    ensures
        first_covered(a, ps) == first_covered(a, ps.take(k)),
    decreases ps.len() - k,
{
    if k < ps.len() {
        assert(ps.take(k + 1).drop_last() =~= ps.take(k));
        lemma_first_covered_extends(a, ps, k + 1);
    } else {
        assert(ps.take(k) =~= ps);
    }
}

/// Matches the resource's provided media types against the quality-marked
/// items of an `Accept` header; gives the place of the chosen one.
pub fn map_accept_media(provided: &Vec<MediaType>, accept: &Vec<QualityItem>) -> (r: Option<usize>)
    ensures
        opt_index(r) == negotiate(accept@, provided@),
        r matches Some(j) ==> j < provided.len(),
{
    let mut stopped = false;
    let mut best_quality: u16 = 0;
    let mut best: Option<usize> = None;
    let mut i: usize = 0;
    while i < accept.len()
        invariant
            0 <= i <= accept.len(),
            accept_scan(accept@.take(i as int), provided@) == (stopped, best_quality, opt_index(best)),
            best matches Some(j) ==> j < provided.len(),
        decreases accept.len() - i,
    {
        assert(accept@.take(i + 1).drop_last() =~= accept@.take(i as int));
        assert(accept@.take(i + 1).last() == accept@[i as int]);
        let a = &accept[i];
        if !stopped {
            if a.quality == 0 {
                stopped = true;
            } else if a.quality > best_quality {
                match first_covered_exec(&a.item, provided) {
                    Some(j) => {
                        best_quality = a.quality;
                        best = Some(j);
                    },
                    None => {},
                }
            }
        }
        i = i + 1;
    }
    assert(accept@.take(accept.len() as int) =~= accept@);
    best
}

/// The first place in `ps` that holds the media type `ct`.
pub fn map_content_media(provided: &Vec<MediaType>, content_type: &MediaType) -> (r: Option<usize>)
    ensures
        opt_index(r) == first_equal(provided@, *content_type),
{
    let mut j: usize = 0;
    while j < provided.len()
        invariant
            0 <= j <= provided.len(),
            first_equal(provided@.take(j as int), *content_type) is None,
        decreases provided.len() - j,
    {
        assert(provided@.take(j + 1).drop_last() =~= provided@.take(j as int));
        if same_media(&provided[j], content_type) {
            assert(provided@.take(j + 1).last() == provided@[j as int]);
            proof { lemma_first_equal_extends(provided@, *content_type, j + 1); }
            return Some(j);
        }
        j = j + 1;
    }
    assert(provided@.take(provided.len() as int) =~= provided@);
    None
}

/// A place found in a prefix stays the first place in the whole list.
proof fn lemma_first_equal_extends(ps: Seq<MediaType>, ct: MediaType, k: int)
    requires
        0 <= k <= ps.len(),
        first_equal(ps.take(k), ct) is Some,
    ensures
        first_equal(ps, ct) == first_equal(ps.take(k), ct),
    decreases ps.len() - k,
{
    if k < ps.len() {
        assert(ps.take(k + 1).drop_last() =~= ps.take(k));
        lemma_first_equal_extends(ps, ct, k + 1);
    } else {
        assert(ps.take(k) =~= ps);
    }
}

/// The place in `accepted` of the request's `Content-Type`.
fn content_type_match(accepted: &Vec<MediaType>, req: &Request) -> (r: Option<usize>)
    ensures
        opt_index(r) == content_match(accepted@, *req),
{
    match &req.content_type {
        Some(ct) => map_content_media(accepted, ct),
        None => None,
    }
}

/// The items of `segs`, separated by commas.
pub open spec fn comma_joined(segs: Seq<String>) -> Seq<char>
    decreases segs.len(),
{
    if segs.len() == 0 {
        Seq::empty()
    } else if segs.len() == 1 {
        segs[0]@
    } else {
        comma_joined(segs.drop_last()) + ","@ + segs.last()@
    }
}

/// The location of a resource that a `POST` creates: the request path, a
/// comma, and the segments separated by commas.
pub open spec fn created_location(path: Seq<char>, segs: Seq<String>) -> Seq<char> {
    path + ","@ + comma_joined(segs)
}

/// The location of a resource that a `POST` creates.
pub fn append_request_path(req: &Request, path_segments: &Vec<String>) -> (r: String)
    ensures
        r@ == created_location(req.path@, path_segments@),
{
    let mut suffix = String::new();
    let mut i: usize = 0;
    while i < path_segments.len()
        invariant
            0 <= i <= path_segments.len(),
            suffix@ == comma_joined(path_segments@.take(i as int)),
        decreases path_segments.len() - i,
    {
        assert(path_segments@.take(i + 1).drop_last() =~= path_segments@.take(i as int));
        if i > 0 {
            suffix.append(",");
        } else {
            assert(Seq::<char>::empty() + path_segments@[0]@ =~= path_segments@[0]@);
        }
        suffix.append(path_segments[i].as_str());
        i = i + 1;
    }
    assert(path_segments@.take(path_segments.len() as int) =~= path_segments@);
    let mut location = req.path.clone();
    location.append(",");
    location.append(suffix.as_str());
    location
}

/// The labels of `nodes`, separated by commas: the `Airship-Trace` header.
pub open spec fn trace_text(nodes: Seq<Node>) -> Seq<char>
    decreases nodes.len(),
{
    if nodes.len() == 0 {
        Seq::empty()
    } else if nodes.len() == 1 {
        nodes[0].label_spec()
    } else {
        trace_text(nodes.drop_last()) + ","@ + nodes.last().label_spec()
    }
}

/// The labels of `nodes`, separated by commas.
pub fn trace_header(nodes: &Vec<Node>) -> (r: String)
    ensures
        r@ == trace_text(nodes@),
{
    let mut text = String::new();
    let mut i: usize = 0;
    while i < nodes.len()
        invariant
            0 <= i <= nodes.len(),
            text@ == trace_text(nodes@.take(i as int)),
        decreases nodes.len() - i,
    {
        assert(nodes@.take(i + 1).drop_last() =~= nodes@.take(i as int));
        if i > 0 {
            text.append(",");
        } else {
            assert(Seq::<char>::empty() + nodes@[0].label_spec() =~= nodes@[0].label_spec());
        }
        text.append(nodes[i].label());
        i = i + 1;
    }
    assert(nodes@.take(nodes.len() as int) =~= nodes@);
    text
}

/// The value of the `Server` header.
pub const SERVER_NAME: &'static str = "airship/0.1.0";

/// The value of the `Airship-Quip` header.
pub const QUIP: &'static str = "blame me if inappropriate";

/// The response under construction, or a blank one.
pub open spec fn pending_response(st: AirshipState) -> Response {
    match st.response {
        Some(resp) => resp,
        None => blank_response(),
    }
}

/// Ends the traversal: the response under construction gets the status, the
/// `Allow` header if one is given, and the `Server`, `Airship-Trace` and
/// `Airship-Quip` headers.
fn halt<S: HasAirshipState>(status_code: u16, allow: Option<Vec<Method>>, state: &mut S) -> (r: Response)
    ensures
        r.status == status_code,
        r.body == pending_response(old(state).airship()).body,
        r.headers.allow == (match allow {
            Some(ms) => Some(ms),
            None => pending_response(old(state).airship()).headers.allow,
        }),
        r.headers.location == pending_response(old(state).airship()).headers.location,
        r.headers.content_type == pending_response(old(state).airship()).headers.content_type,
        r.headers.etag == pending_response(old(state).airship()).headers.etag,
        r.headers.last_modified == pending_response(old(state).airship()).headers.last_modified,
        r.headers.server matches Some(s) && s@ == SERVER_NAME@,
        r.headers.airship_trace matches Some(t) && t@ == trace_text(
            old(state).airship().decision_trace@,
        ),
        r.headers.airship_quip matches Some(q) && q@ == QUIP@,
        final(state).airship() == (AirshipState { response: None, ..old(state).airship() }),
{
    let text = trace_header(get_trace(state));
    let mut resp = get_response(state);
    resp.status = status_code;
    match allow {
        Some(ms) => resp.set_header(ResponseHeader::Allow(ms)),
        None => {},
    }
    resp.headers.server = Some(String::from_str(SERVER_NAME));
    resp.headers.airship_trace = Some(text);
    resp.headers.airship_quip = Some(String::from_str(QUIP));
    resp
}

/// The traversal's log and clock are as they were.
pub open spec fn keeps_log(pre: AirshipState, post: AirshipState) -> bool {
    post.decision_trace == pre.decision_trace && post.decision_answers == pre.decision_answers
        && post.decision_seen == pre.decision_seen
        && post.request_time == pre.request_time
}

/// The media type chosen from `Accept`, and whether there is a response
/// under construction, are as they were.
pub open spec fn keeps_choice(pre: AirshipState, post: AirshipState) -> bool {
    post.matched_content_type == pre.matched_content_type && (pre.response is Some ==> post.response is Some)
}

/// The media type that `c04` chose, given the provided types it learned.
pub open spec fn c04_choice(req: Request, ans: Answer) -> Option<MediaType> {
    match ans {
        Answer::Types(ps) => match negotiate(accept_items(req), ps@) {
            Some(j) => Some(ps@[j]),
            None => None,
        },
        _ => None,
    }
}

/// The state holds `m` as the media type chosen from `Accept`.
pub open spec fn chose(st: AirshipState, m: MediaType) -> bool {
    st.matched_content_type matches Some(p) && p.0 == m
}

/// The response under construction has the location `l`.
pub open spec fn location_is(st: AirshipState, l: Seq<char>) -> bool {
    st.response matches Some(r) && r.headers.location matches Some(x) && x@ == l
}

/// A created resource: sets `Location` to the new resource's path, then
/// gives `content_types_accepted`, the place in it of the request's
/// `Content-Type`, and the location set.
fn create<R: Webmachine, S: HasAirshipState>(
    r: &R,
    req: &Request,
    state: &mut S,
    path_segments: &Vec<String>,
) -> (out: (Vec<MediaType>, Option<usize>, String))
    ensures
        opt_index(out.1) == content_match(out.0@, *req),
        out.2@ == created_location(req.path@, path_segments@),
        keeps_log(old(state).airship(), final(state).airship()),
        keeps_choice(old(state).airship(), final(state).airship()),
        final(state).airship().response == response_with_header(
            old(state).airship().response,
            ResponseHeader::Location(out.2),
        ),
{
    let location = append_request_path(req, path_segments);
    set_response_header(state, ResponseHeader::Location(location.clone()));
    let accepted = r.content_types_accepted(state);
    let found = content_type_match(&accepted, req);
    (accepted, found, location)
}

/// How `process_post` chose to handle the request.
pub open spec fn post_kind(pr: PostResponse) -> PostKind {
    match pr {
        PostResponse::PostCreate(_) => PostKind::Create,
        PostResponse::PostCreateRedirect(_) => PostKind::CreateRedirect,
        PostResponse::PostProcess(_) => PostKind::Process,
        PostResponse::PostProcessRedirect(_) => PostKind::ProcessRedirect,
    }
}

/// The media types that a processing `PostResponse` accepts.
pub open spec fn post_list(pr: PostResponse) -> Option<Vec<MediaType>> {
    match pr {
        PostResponse::PostProcess(v) => Some(v),
        PostResponse::PostProcessRedirect(v) => Some(v),
        _ => None,
    }
}

/// The path segments of a creating `PostResponse`.
pub open spec fn post_segments(pr: PostResponse) -> Option<Vec<String>> {
    match pr {
        PostResponse::PostCreate(v) => Some(v),
        PostResponse::PostCreateRedirect(v) => Some(v),
        _ => None,
    }
}

/// The kind of a `Posted` answer.
pub open spec fn posted_kind(a: Answer) -> PostKind {
    match a {
        Answer::Posted(k, _, _) => k,
        _ => PostKind::Process,
    }
}

/// The media types of a `Posted` answer.
pub open spec fn posted_list(a: Answer) -> Seq<MediaType> {
    match a {
        Answer::Posted(_, v, _) => v@,
        _ => Seq::empty(),
    }
}

/// The location of a `Posted` answer.
pub open spec fn posted_location(a: Answer) -> Option<String> {
    match a {
        Answer::Posted(_, _, l) => l,
        _ => None,
    }
}

/// The response after a `POST` at `n11` set the location it recorded.
pub open spec fn posted_response(resp: Option<Response>, a: Answer) -> Option<Response> {
    match posted_location(a) {
        Some(l) => response_with_header(resp, ResponseHeader::Location(l)),
        None => resp,
    }
}

/// A `Posted` answer sets a location for a created resource, none for a
/// processed one without a redirect, and one for a processed redirect
/// exactly when the request's `Content-Type` is accepted.
pub open spec fn posted_ok(req: Request, a: Answer) -> bool {
    &&& a is Posted
    &&& (posted_kind(a) == PostKind::Create || posted_kind(a) == PostKind::CreateRedirect)
        ==> posted_location(a) is Some
    &&& posted_kind(a) == PostKind::Process ==> posted_location(a) is None
    &&& posted_kind(a) == PostKind::ProcessRedirect ==> (posted_location(a) is Some <==> content_match(
        posted_list(a),
        req,
    ) is Some)
}

/// Handles a `POST` as `process_post` chose: a created resource gets its
/// `Location` and is matched against `content_types_accepted`; a processed
/// one is matched against its own list. On a match the action runs, and a
/// processed redirect takes as `Location` what the action gives.
fn process_post_action<R: Webmachine, S: HasAirshipState>(
    r: &R,
    req: &Request,
    state: &mut S,
    pr: PostResponse,
) -> (out: (Step, Ghost<Answer>))
    ensures
        out.0 == step_spec(Node::N11, *req, old(state).airship().request_time, out.1@),
        posted_ok(*req, out.1@),
        posted_kind(out.1@) == post_kind(pr),
        post_list(pr) matches Some(acc) ==> posted_list(out.1@) == acc@,
        post_segments(pr) matches Some(segs) ==> (posted_location(out.1@) matches Some(l) && l@
            == created_location(req.path@, segs@)),
        final(state).airship().response == posted_response(old(state).airship().response, out.1@),
        keeps_log(old(state).airship(), final(state).airship()),
        keeps_choice(old(state).airship(), final(state).airship()),
{
    let now = request_time(state);
    match pr {
        PostResponse::PostCreate(path_segments) => {
            let (accepted, found, location) = create(r, req, state, &path_segments);
            let ans = Answer::Posted(PostKind::Create, accepted, Some(location));
            let step = next_step(Node::N11, req, now, &ans);
            match found {
                Some(j) => r.accept_content(req, j),
                None => {},
            }
            (step, Ghost(ans))
        },
        PostResponse::PostCreateRedirect(path_segments) => {
            let (accepted, found, location) = create(r, req, state, &path_segments);
            let ans = Answer::Posted(PostKind::CreateRedirect, accepted, Some(location));
            let step = next_step(Node::N11, req, now, &ans);
            match found {
                Some(j) => r.accept_content(req, j),
                None => {},
            }
            (step, Ghost(ans))
        },
        PostResponse::PostProcess(accepted) => {
            let found = content_type_match(&accepted, req);
            let ans = Answer::Posted(PostKind::Process, accepted, None);
            let step = next_step(Node::N11, req, now, &ans);
            match found {
                Some(j) => r.process_content(req, j),
                None => {},
            }
            (step, Ghost(ans))
        },
        PostResponse::PostProcessRedirect(accepted) => {
            let found = content_type_match(&accepted, req);
            let location = match found {
                Some(j) => {
                    let l = r.process_redirect(req, j);
                    set_response_header(state, ResponseHeader::Location(l.clone()));
                    Some(l)
                },
                None => None,
            };
            let ans = Answer::Posted(PostKind::ProcessRedirect, accepted, location);
            let step = next_step(Node::N11, req, now, &ans);
            (step, Ghost(ans))
        },
    }
}

/// What `o18` does: `300` when the resource offers multiple choices; else,
/// for `GET` and `HEAD`, `200` with the media type chosen from `Accept`, or
/// failing that the first one provided (`500` when there is none); for any
/// other method `200` with no media type.
pub open spec fn served_spec(
    multiple: bool,
    method: Method,
    matched: Option<(MediaType, usize)>,
    provided: Seq<MediaType>,
) -> (Step, Option<(MediaType, int)>) {
    if multiple {
        (Step::Halt(300), None)
    } else if method is Get || method is Head {
        match matched {
            Some((m, j)) => (Step::Halt(200), Some((m, j as int))),
            None => if provided.len() > 0 {
                (Step::Halt(200), Some((provided[0], 0)))
            } else {
                (Step::Halt(500), None)
            },
        }
    } else {
        (Step::Halt(200), None)
    }
}

/// A chosen media type and its place, with the place as an integer.
pub open spec fn choice_index(c: Option<(MediaType, usize)>) -> Option<(MediaType, int)> {
    match c {
        Some((m, j)) => Some((m, j as int)),
        None => None,
    }
}

/// The status of `o18` and the media type (with its place among the
/// provided ones) whose body is served.
pub fn choose_served(
    multiple: bool,
    method: &Method,
    matched: Option<(MediaType, usize)>,
    provided: &Vec<MediaType>,
) -> (r: (Step, Option<(MediaType, usize)>))
    ensures
        (r.0, choice_index(r.1)) == served_spec(multiple, *method, matched, provided@),
{
    if multiple {
        return (Step::Halt(300), None);
    }
    match method {
        Method::Get | Method::Head => match matched {
            Some(m) => (Step::Halt(200), Some(m)),
            None => if provided.len() > 0 {
                (Step::Halt(200), Some((provided[0].duplicate(), 0)))
            } else {
                (Step::Halt(500), None)
            },
        },
        _ => (Step::Halt(200), None),
    }
}

/// The response after `o18` rendered `x` on it: the media type served as
/// `Content-Type` with the body made for it, and the entity tag and
/// modification time when there are; all else as it was.
pub open spec fn rendered_response(resp: Response, x: Rendering) -> Response {
    Response {
        headers: ResponseHeaders {
            content_type: match x.chosen {
                Some(c) => Some(c.0),
                None => resp.headers.content_type,
            },
            etag: match x.etag {
                Some(e) => Some(e),
                None => resp.headers.etag,
            },
            last_modified: match x.modified {
                Some(t) => Some(t),
                None => resp.headers.last_modified,
            },
            ..resp.headers
        },
        body: match x.body {
            Some(b) => Some(b),
            None => resp.body,
        },
        ..resp
    }
}

/// What `o18`, going from the state `pre` to `post` with the step `step`,
/// learned and made: the media type served is the one `served_spec` picks
/// from the type chosen from `Accept` and the provided ones; a body is made
/// exactly for a served type; on `200` the response is `rendered_response`
/// of the one under construction, and otherwise it is untouched and nothing
/// was made.
pub open spec fn o18_made(req: Request, pre: AirshipState, post: AirshipState, step: Step, x: Rendering) -> bool {
    &&& choice_index(x.chosen) == served_spec(
        x.multiple,
        req.method,
        pre.matched_content_type,
        x.provided@,
    ).1
    &&& (x.chosen is Some) == (x.body is Some)
    &&& step == Step::Halt(200) ==> post.response == match pre.response {
        Some(resp) => Some(rendered_response(resp, x)),
        None => None,
    }
    &&& step != Step::Halt(200) ==> post.response == pre.response && x.body is None && x.etag is None
        && x.modified is None
}

/// The end of a successful traversal: the status that `choose_served`
/// gives; on `200`, the media type served as `Content-Type` with the body
/// `provide_body` makes for its place, then the `ETag` and `Last-Modified`
/// that `generate_etag` and `last_modified` give.
fn o18<R: Webmachine, S: HasAirshipState>(r: &R, req: &Request, state: &mut S) -> (out: (Step, Ghost<Answer>))
    ensures
        out.0 == step_spec(Node::O18, *req, old(state).airship().request_time, out.1@),
        out.1@ matches Answer::Rendered(x) && o18_made(
            *req,
            old(state).airship(),
            final(state).airship(),
            out.0,
            x,
        ),
        keeps_log(old(state).airship(), final(state).airship()),
{
    reveal(step_spec);
    let now = request_time(state);
    let multiple = r.multiple_choices(state);
    let reads_body = match req.method {
        Method::Get | Method::Head => true,
        _ => false,
    };
    let matched = if multiple || !reads_body {
        None
    } else {
        get_matched_content_type(state)
    };
    let provided = if !multiple && reads_body && matched.is_none() {
        r.content_types_provided(state)
    } else {
        Vec::new()
    };
    let (served, chosen) = choose_served(multiple, &req.method, matched, &provided);
    let mut body: Option<String> = None;
    let mut etag: Option<EntityTag> = None;
    let mut modified: Option<u64> = None;
    if served == Step::Halt(200) {
        match &chosen {
            Some((content_type, index)) => {
                set_response_header(state, ResponseHeader::ContentType(content_type.duplicate()));
                let b = r.provide_body(req, *index);
                body = Some(b.clone());
                set_response_body(state, b);
            },
            None => {},
        }
        etag = r.generate_etag(state, req);
        match &etag {
            Some(e) => set_response_header(
                state,
                ResponseHeader::ETag(EntityTag { weak: e.weak, tag: e.tag.clone() }),
            ),
            None => {},
        }
        modified = r.last_modified(state);
        match modified {
            Some(t) => set_response_header(state, ResponseHeader::LastModified(t)),
            None => {},
        }
    }
    let ans = Answer::Rendered(Rendering { multiple, provided, chosen, body, etag, modified });
    let step = next_step(Node::O18, req, now, &ans);
    (step, Ghost(ans))
}

/// A `PUT` body, at `o14` or `p03`: `is_conflict`, and when there is none
/// the request's `Content-Type` matched against `content_types_accepted`;
/// on a match the action runs.
fn put_content<R: Webmachine, S: HasAirshipState>(
    r: &R,
    req: &Request,
    state: &mut S,
    node: Node,
) -> (out: (Step, Ghost<Answer>))
    ensures
        out.0 == step_spec(node, *req, old(state).airship().request_time, out.1@),
        out.1@ matches Answer::Conflict(_, _),
        keeps_log(old(state).airship(), final(state).airship()),
        keeps_choice(old(state).airship(), final(state).airship()),
{
    let now = request_time(state);
    let conflict = r.is_conflict(state);
    let (accepted, found) = if conflict {
        (Vec::new(), None)
    } else {
        let accepted = r.content_types_accepted(state);
        let found = content_type_match(&accepted, req);
        (accepted, found)
    };
    let ans = Answer::Conflict(conflict, accepted);
    let step = next_step(node, req, now, &ans);
    match found {
        Some(j) => r.accept_content(req, j),
        None => {},
    }
    (step, Ghost(ans))
}

/// The response under construction has a `Location` header.
pub open spec fn response_has_location(r: Option<Response>) -> bool {
    r matches Some(resp) && resp.headers.location is Some
}

/// Whether the response under construction has a `Location` header.
fn has_location<S: HasAirshipState>(state: &S) -> (r: bool)
    ensures
        r == response_has_location(state.airship().response),
{
    match &state.get_airship_state().response {
        Some(resp) => resp.headers.location.is_some(),
        None => false,
    }
}

/// The nodes that read the request alone.
pub open spec fn reads_request_only(n: Node) -> bool {
    n == Node::B12 || n == Node::C03 || n == Node::D04 || n == Node::E05 || n == Node::E06 || n
        == Node::F06 || n == Node::F07 || n == Node::G08 || n == Node::G09 || n == Node::G11 || n
        == Node::H07 || n == Node::H10 || n == Node::H11 || n == Node::I07 || n == Node::I12 || n
        == Node::I13 || n == Node::J18 || n == Node::K13 || n == Node::L07 || n == Node::L13 || n
        == Node::L14 || n == Node::L15 || n == Node::M05 || n == Node::M16 || n == Node::N16 || n
        == Node::O16
}

/// A node that learned the flag `b`.
fn flag_step(node: Node, req: &Request, now: u64, b: bool) -> (out: (Step, Option<Vec<Method>>, Ghost<Answer>))
    ensures
        out.0 == step_spec(node, *req, now, Answer::Flag(b)),
        out.1 is None,
        out.2@ == Answer::Flag(b),
{
    let ans = Answer::Flag(b);
    (next_step(node, req, now, &ans), None, Ghost(ans))
}

/// A node that read the request alone.
fn request_step(node: Node, req: &Request, now: u64) -> (out: (Step, Option<Vec<Method>>, Ghost<Answer>))
    ensures
        out.0 == step_spec(node, *req, now, Answer::Unasked),
        out.1 is None,
        out.2@ == Answer::Unasked,
{
    let ans = Answer::Unasked;
    (next_step(node, req, now, &ans), None, Ghost(ans))
}

/// A node that learned the allowed methods; a halt lists them.
fn allowed_step(node: Node, req: &Request, now: u64, allowed: Vec<Method>) -> (out: (Step, Option<Vec<Method>>, Ghost<Answer>))
    ensures
        out.0 == step_spec(node, *req, now, Answer::Methods(allowed)),
        out.2@ == Answer::Methods(allowed),
        out.0 is Halt ==> out.1 == Some(allowed),
        out.1 is Some ==> out.1 == Some(allowed),
{
    let ans = Answer::Methods(allowed);
    let step = next_step(node, req, now, &ans);
    let ghost g = ans;
    match step {
        Step::Halt(_) => match ans {
            Answer::Methods(ms) => (step, Some(ms), Ghost(g)),
            _ => (step, None, Ghost(g)),
        },
        _ => (step, None, Ghost(g)),
    }
}

/// A node that learned where the resource moved; a halt sets `Location`.
fn redirect_step<S: HasAirshipState>(node: Node, req: &Request, now: u64, state: &mut S, moved: Option<String>) -> (out: (Step, Option<Vec<Method>>, Ghost<Answer>))
    ensures
        out.0 == step_spec(node, *req, now, Answer::Redirect(moved)),
        out.1 is None,
        out.2@ == Answer::Redirect(moved),
        (node == Node::I04 || node == Node::K05 || node == Node::L05) && out.0 is Halt ==> moved is Some,
        final(state).airship().response == match moved {
            Some(loc) => if out.0 is Halt {
                response_with_header(old(state).airship().response, ResponseHeader::Location(loc))
            } else {
                old(state).airship().response
            },
            None => old(state).airship().response,
        },
        keeps_log(old(state).airship(), final(state).airship()),
        keeps_choice(old(state).airship(), final(state).airship()),
{
    reveal(step_spec);
    let ans = Answer::Redirect(moved);
    let step = next_step(node, req, now, &ans);
    let ghost g = ans;
    match step {
        Step::Halt(_) => match ans {
            Answer::Redirect(Some(location)) => set_response_header(state, ResponseHeader::Location(location)),
            _ => {},
        },
        _ => {},
    }
    (step, None, Ghost(g))
}

/// `c04`: matches the provided media types against `Accept` and records
/// the one chosen.
fn c04<R: Webmachine, S: HasAirshipState>(r: &R, req: &Request, state: &mut S, now: u64) -> (out: (Step, Option<Vec<Method>>, Ghost<Answer>))
    ensures
        out.0 == step_spec(Node::C04, *req, now, out.2@),
        out.1 is None,
        out.2@ is Types,
        keeps_log(old(state).airship(), final(state).airship()),
        out.0 is Next ==> (c04_choice(*req, out.2@) matches Some(m) && chose(final(state).airship(), m)),
        old(state).airship().response is Some ==> final(state).airship().response is Some,
{
    reveal(step_spec);
    let provided = r.content_types_provided(state);
    let found = match &req.accept {
        Some(accept) => map_accept_media(&provided, accept),
        None => None,
    };
    match found {
        Some(j) => {
            let chosen = provided[j].duplicate();
            matched_content_type(state, Some((chosen, j)));
        },
        None => {},
    }
    let ans = Answer::Types(provided);
    (next_step(Node::C04, req, now, &ans), None, Ghost(ans))
}

/// What a node learned has the form of what it consults, and is exact for
/// what the library decides alone: nothing for the nodes that read the
/// request only, and at `o20` and `p11` what the response under
/// construction (`seen`) holds.
pub open spec fn learned_right(req: Request, node: Node, ans: Answer, seen: Option<Response>) -> bool {
    &&& reads_request_only(node) ==> ans == Answer::Unasked
    &&& node == Node::B03 ==> if req.method is Options {
        ans is Methods
    } else {
        ans == Answer::Unasked
    }
    &&& node == Node::O17 ==> if req.method is Patch {
        ans is Types
    } else {
        ans == Answer::Unasked
    }
    &&& node == Node::O20 ==> ans == Answer::Flag(response_is_empty(seen))
    &&& node == Node::P11 ==> ans == Answer::Flag(response_has_location(seen))
    &&& (node == Node::B13 || node == Node::B11 || node == Node::B09 || node == Node::B08 || node
        == Node::B07 || node == Node::B06 || node == Node::B05 || node == Node::B04 || node
        == Node::D05 || node == Node::G07 || node == Node::K07 || node == Node::M07 || node
        == Node::N05) ==> ans is Flag
    &&& node == Node::B10 ==> ans is Methods
    &&& node == Node::C04 ==> ans is Types
    &&& (node == Node::H12 || node == Node::L17) ==> ans is Modified
    &&& (node == Node::I04 || node == Node::K05 || node == Node::L05) ==> ans is Redirect
    &&& node == Node::M20 ==> ans is Flags
    &&& node == Node::O18 ==> (ans matches Answer::Rendered(x) && (x.chosen is Some) == (
    x.body is Some))
    &&& node == Node::N11 ==> posted_ok(req, ans)
    &&& (node == Node::O14 || node == Node::P03) ==> ans is Conflict
}

/// Visits one node: consults the callback or the part of the state that the
/// node reads, builds the answer from what came back, and takes the step
/// that `next_step` gives for it; for a halt that lists the allowed methods,
/// also gives that list.
fn decide<R: Webmachine, S: HasAirshipState>(
    r: &R,
    req: &Request,
    state: &mut S,
    node: Node,
) -> (out: (Step, Option<Vec<Method>>, Ghost<Answer>))
    ensures
        out.0 == step_spec(node, *req, old(state).airship().request_time, out.2@),
        keeps_log(old(state).airship(), final(state).airship()),
        out.1 matches Some(ms) ==> out.2@ == Answer::Methods(ms),
        (node == Node::B10 || node == Node::B03) && out.0 is Halt ==> out.1 is Some,
        node != Node::C04 && node != Node::O18 ==> keeps_choice(old(state).airship(), final(state).airship()),
        node == Node::C04 && out.0 is Next ==> (c04_choice(*req, out.2@) matches Some(m) && chose(
            final(state).airship(),
            m,
        )),
        node == Node::C04 && old(state).airship().response is Some
            ==> final(state).airship().response is Some,
        node == Node::O18 ==> (out.2@ matches Answer::Rendered(x) && o18_made(
            *req,
            old(state).airship(),
            final(state).airship(),
            out.0,
            x,
        )),
        (node == Node::I04 || node == Node::K05 || node == Node::L05) && out.0 is Halt ==> (
        out.2@ matches Answer::Redirect(Some(loc)) && final(state).airship().response
            == response_with_header(old(state).airship().response, ResponseHeader::Location(loc))),
        node == Node::N11 ==> final(state).airship().response == posted_response(
            old(state).airship().response,
            out.2@,
        ),
        node == Node::O20 || node == Node::P11 ==> final(state).airship() == old(state).airship(),
        reads_request_only(node) ==> out.2@ == Answer::Unasked,
        node == Node::B03 && !(req.method is Options) ==> out.2@ == Answer::Unasked,
        node == Node::O17 && !(req.method is Patch) ==> out.2@ == Answer::Unasked,
        node == Node::O20 ==> out.2@ == Answer::Flag(response_is_empty(old(state).airship().response)),
        node == Node::P11 ==> out.2@ == Answer::Flag(response_has_location(old(state).airship().response)),
        learned_right(*req, node, out.2@, old(state).airship().response),
{
    let now = request_time(state);
    match node {
        Node::B13 => {
            let b = r.service_available(state);
            flag_step(node, req, now, b)
        },
        Node::B11 => {
            let b = r.uri_too_long(state, &req.path);
            flag_step(node, req, now, b)
        },
        Node::B10 => {
            let allowed = r.allowed_methods(state);
            allowed_step(node, req, now, allowed)
        },
        Node::B09 => {
            let b = r.malformed_request(state, req);
            flag_step(node, req, now, b)
        },
        Node::B08 => {
            let b = r.is_authorized(state, req);
            flag_step(node, req, now, b)
        },
        Node::B07 => {
            let b = r.forbidden(state, req);
            flag_step(node, req, now, b)
        },
        Node::B06 => {
            let b = r.valid_content_headers(state, req);
            flag_step(node, req, now, b)
        },
        Node::B05 => {
            let b = r.known_content_type(state, req);
            flag_step(node, req, now, b)
        },
        Node::B04 => {
            let b = r.entity_too_large(state, req);
            flag_step(node, req, now, b)
        },
        Node::B03 => match req.method {
            Method::Options => {
                let allowed = r.allowed_methods(state);
                allowed_step(node, req, now, allowed)
            },
            _ => {
                proof {
                    reveal(step_spec);
                }
                request_step(node, req, now)
            },
        },
        Node::C04 => c04(r, req, state, now),
        Node::D05 => {
            let b = match &req.accept_language {
                Some(language) => r.language_available(state, language),
                None => true,
            };
            flag_step(node, req, now, b)
        },
        Node::G07 => {
            let b = r.resource_exists(state);
            flag_step(node, req, now, b)
        },
        Node::H12 | Node::L17 => {
            let ans = Answer::Modified(r.last_modified(state));
            (next_step(node, req, now, &ans), None, Ghost(ans))
        },
        Node::I04 | Node::K05 => {
            let moved = r.moved_permanently(state);
            redirect_step(node, req, now, state, moved)
        },
        Node::K07 => {
            let b = r.previously_existed(state);
            flag_step(node, req, now, b)
        },
        Node::L05 => {
            let moved = r.moved_temporarily(state);
            redirect_step(node, req, now, state, moved)
        },
        Node::M07 | Node::N05 => {
            let b = r.allow_missing_post(state);
            flag_step(node, req, now, b)
        },
        Node::M20 => {
            let deleted = r.delete_resource(state, req);
            let completed = r.delete_completed(state);
            let ans = Answer::Flags(deleted, completed);
            (next_step(node, req, now, &ans), None, Ghost(ans))
        },
        Node::N11 => {
            let post_response = r.process_post(state, req);
            let (step, ans) = process_post_action(r, req, state, post_response);
            (step, None, ans)
        },
        Node::O14 | Node::P03 => {
            let (step, ans) = put_content(r, req, state, node);
            (step, None, ans)
        },
        Node::O17 => match req.method {
            Method::Patch => {
                let accepted = r.patch_content_types_accepted(state);
                let found = content_type_match(&accepted, req);
                let ans = Answer::Types(accepted);
                let step = next_step(node, req, now, &ans);
                match found {
                    Some(j) => r.accept_patch(req, j),
                    None => {},
                }
                (step, None, Ghost(ans))
            },
            _ => request_step(node, req, now),
        },
        Node::O18 => {
            let (step, ans) = o18(r, req, state);
            (step, None, ans)
        },
        Node::O20 => {
            let b = is_response_empty(state);
            flag_step(node, req, now, b)
        },
        Node::P11 => {
            let b = has_location(state);
            flag_step(node, req, now, b)
        },
        _ => request_step(node, req, now),
    }
}

/// `nodes` and `answers` are a complete walk of the graph for `req`, from
/// `b13` to a node that halts with `status`: each node leads to the next
/// given what it learned, and the last one halts.
pub open spec fn valid_run(req: Request, now: u64, nodes: Seq<Node>, answers: Seq<Answer>, status: u16) -> bool {
    &&& nodes.len() >= 1
    &&& answers.len() == nodes.len()
    &&& nodes[0] == Node::B13
    &&& forall|i: int|
        0 <= i < nodes.len() - 1 ==> #[trigger] step_spec(nodes[i], req, now, answers[i]) == Step::Next(
            nodes[i + 1],
        )
    &&& step_spec(nodes.last(), req, now, answers.last()) == Step::Halt(status)
}

/// A walk begun at `b13` that has reached `next` and not halted.
pub open spec fn run_so_far(req: Request, now: u64, nodes: Seq<Node>, answers: Seq<Answer>, next: Node) -> bool {
    &&& answers.len() == nodes.len()
    &&& nodes.len() == 0 ==> next == Node::B13
    &&& nodes.len() > 0 ==> nodes[0] == Node::B13 && step_spec(nodes.last(), req, now, answers.last())
        == Step::Next(next)
    &&& forall|i: int|
        0 <= i < nodes.len() - 1 ==> #[trigger] step_spec(nodes[i], req, now, answers[i]) == Step::Next(
            nodes[i + 1],
        )
}

/// The media type that the walk chose from `Accept` at `c04`, if it did.
pub open spec fn negotiated(req: Request, nodes: Seq<Node>, answers: Seq<Answer>) -> Option<MediaType>
    decreases nodes.len(),
{
    if nodes.len() == 0 || answers.len() == 0 {
        None
    } else {
        let prev = negotiated(req, nodes.drop_last(), answers.drop_last());
        if nodes.last() == Node::C04 && c04_choice(req, answers.last()) is Some {
            c04_choice(req, answers.last())
        } else {
            prev
        }
    }
}

/// The nodes that one traversal visited: those that `post` holds past the
/// ones `pre` held.
pub open spec fn visited(pre: AirshipState, post: AirshipState) -> Seq<Node> {
    post.decision_trace@.skip(pre.decision_trace@.len() as int)
}

/// The response under construction as each node of one traversal found
/// it.
pub open spec fn seen_by(pre: AirshipState, post: AirshipState) -> Seq<Option<Response>> {
    post.decision_seen@.skip(pre.decision_seen@.len() as int)
}

/// Each node learned what it consults (see `learned_right`).
pub open spec fn all_learned_right(req: Request, nodes: Seq<Node>, answers: Seq<Answer>, seen: Seq<Option<Response>>) -> bool {
    &&& seen.len() == nodes.len()
    &&& forall|i: int|
        0 <= i < nodes.len() ==> #[trigger] learned_right(req, nodes[i], answers[i], seen[i])
}

/// What each node of one traversal learned.
pub open spec fn learned(pre: AirshipState, post: AirshipState) -> Seq<Answer> {
    post.decision_answers@.skip(pre.decision_answers@.len() as int)
}

/// `o18` served, unless the resource offers multiple choices, the media
/// type `m` chosen from `Accept`.
pub open spec fn serves_negotiated(a: Answer, m: Option<MediaType>) -> bool {
    a matches Answer::Rendered(x) && (!x.multiple ==> (x.chosen matches Some(c) && Some(c.0) == m))
}

/// The response carries the body and headers of `built` that the graph
/// sets.
pub open spec fn carries(resp: Response, built: Response) -> bool {
    &&& resp.body == built.body
    &&& resp.headers.allow == built.headers.allow
    &&& resp.headers.location == built.headers.location
    &&& resp.headers.content_type == built.headers.content_type
    &&& resp.headers.etag == built.headers.etag
    &&& resp.headers.last_modified == built.headers.last_modified
}

/// A `200` from `o18` is what it rendered on the response it found: the
/// served type, the body made, the entity tag and modification time, and
/// the headers set before.
pub open spec fn o18_result(resp: Response, a: Answer, found: Option<Response>) -> bool {
    a matches Answer::Rendered(x) && found matches Some(r0) && carries(resp, rendered_response(r0, x))
}

/// The response has the location that a `POST` recorded, if it recorded
/// one.
pub open spec fn has_posted_location(resp: Response, l: Option<String>) -> bool {
    l matches Some(x) ==> resp.headers.location == Some(x)
}

/// What a traversal of the graph guarantees, from the state `pre` to the
/// state `post` with the response `resp`: the trace grew by a complete walk
/// of the graph that halted with the response's status; the response carries
/// the whole trace in `Airship-Trace`, and the allowed methods in `Allow`
/// when it halted at `b10` or `b03`.
pub open spec fn traversal_ok(req: Request, pre: AirshipState, post: AirshipState, resp: Response) -> bool {
    let nodes = visited(pre, post);
    let answers = learned(pre, post);
    &&& post.decision_trace@.len() >= pre.decision_trace@.len()
    &&& post.decision_answers@.len() >= pre.decision_answers@.len()
    &&& post.decision_seen@.len() >= pre.decision_seen@.len()
    &&& all_learned_right(req, nodes, answers, seen_by(pre, post))
    &&& post.decision_trace@.take(pre.decision_trace@.len() as int) == pre.decision_trace@
    &&& post.decision_answers@.take(pre.decision_answers@.len() as int) == pre.decision_answers@
    &&& post.request_time == pre.request_time
    &&& valid_run(req, pre.request_time, nodes, answers, resp.status)
    &&& resp.headers.airship_trace matches Some(t) && t@ == trace_text(post.decision_trace@)
    &&& resp.headers.server matches Some(s) && s@ == SERVER_NAME@
    &&& resp.headers.airship_quip matches Some(q) && q@ == QUIP@
    &&& (nodes.last() == Node::B10 || nodes.last() == Node::B03) ==> (answers.last() matches Answer::Methods(ms)
        && resp.headers.allow == Some(ms))
    &&& (req.method is Get || req.method is Head) && nodes.last() == Node::O18 && negotiated(
        req,
        nodes,
        answers,
    ) is Some ==> serves_negotiated(answers.last(), negotiated(req, nodes, answers))
    &&& pre.response is Some && nodes.last() == Node::O18 && resp.status == 200 ==> o18_result(
        resp,
        answers.last(),
        seen_by(pre, post).last(),
    )
    &&& pre.response is Some && (nodes.last() == Node::I04 || nodes.last() == Node::K05
        || nodes.last() == Node::L05) ==> (answers.last() matches Answer::Redirect(Some(loc))
        && resp.headers.location == Some(loc))
    &&& nodes.last() == Node::N11 && resp.status == 303 ==> posted_location(answers.last()) is Some
    &&& pre.response is Some && nodes.last() == Node::N11 ==> has_posted_location(
        resp,
        posted_location(answers.last()),
    )
    &&& pre.response is Some && nodes.len() >= 2 && nodes[nodes.len() - 2] == Node::N11
        && nodes.last() == Node::P11 ==> has_posted_location(
        resp,
        posted_location(answers[nodes.len() - 2]),
    )
}

/// A `303` at `n11` comes with the location that the `POST` set.
proof fn lemma_see_other_has_location(req: Request, now: u64, ans: Answer)
    requires
        posted_ok(req, ans),
        step_spec(Node::N11, req, now, ans) == Step::Halt(303),
    ensures
        posted_location(ans) is Some,
{
    reveal(step_spec);
}

/// A walk that has reached `node`, where `node` halts, is complete.
proof fn lemma_run_halts(req: Request, now: u64, nodes: Seq<Node>, answers: Seq<Answer>, node: Node, ans: Answer, status: u16)
    requires
        run_so_far(req, now, nodes, answers, node),
        step_spec(node, req, now, ans) == Step::Halt(status),
    ensures
        valid_run(req, now, nodes.push(node), answers.push(ans), status),
{
    let ns = nodes.push(node);
    let asw = answers.push(ans);
    assert forall|i: int| 0 <= i < ns.len() - 1 implies #[trigger] step_spec(ns[i], req, now, asw[i]) == Step::Next(ns[i + 1]) by {
        if i < nodes.len() - 1 {
            assert(ns[i] == nodes[i] && asw[i] == answers[i] && ns[i + 1] == nodes[i + 1]);
        } else {
            assert(ns[i] == nodes.last() && asw[i] == answers.last());
        }
    }
}

proof fn lemma_skip_push<T>(s: Seq<T>, x: T, n: int)
    requires
        0 <= n <= s.len(),
    ensures
        s.push(x).skip(n) == s.skip(n).push(x),
        s.push(x).take(n) == s.take(n),
{
    assert(s.push(x).skip(n) =~= s.skip(n).push(x));
    assert(s.push(x).take(n) =~= s.take(n));
}

/// Runs the decision graph for the request `req` on the resource `r`, from
/// `b13` until a node halts, and gives the response.
pub fn traverse<R: Webmachine, S: HasAirshipState>(r: &R, req: &Request, state: &mut S) -> (resp: Response)
    ensures
        traversal_ok(*req, old(state).airship(), final(state).airship(), resp),
{
    let ghost pre = state.airship();
    let ghost now = pre.request_time;
    let ghost n0 = pre.decision_trace@.len() as int;
    let ghost a0 = pre.decision_answers@.len() as int;
    let ghost v0 = pre.decision_seen@.len() as int;
    let mut node = Node::B13;
    assert(pre.decision_trace@.take(n0) =~= pre.decision_trace@);
    assert(pre.decision_answers@.take(a0) =~= pre.decision_answers@);
    assert(state.airship().decision_trace@.skip(n0) =~= Seq::<Node>::empty());
    assert(state.airship().decision_answers@.skip(a0) =~= Seq::<Answer>::empty());
    assert(state.airship().decision_seen@.skip(v0) =~= Seq::<Option<Response>>::empty());
    loop
        invariant
            pre == old(state).airship(),
            n0 == pre.decision_trace@.len(),
            now == pre.request_time,
            a0 == pre.decision_answers@.len(),
            v0 == pre.decision_seen@.len(),
            state.airship().decision_seen@.len() >= v0,
            all_learned_right(
                *req,
                state.airship().decision_trace@.skip(n0),
                state.airship().decision_answers@.skip(a0),
                state.airship().decision_seen@.skip(v0),
            ),
            state.airship().decision_trace@.len() >= n0,
            state.airship().decision_answers@.len() >= a0,
            state.airship().decision_trace@.take(n0) == pre.decision_trace@,
            state.airship().decision_answers@.take(a0) == pre.decision_answers@,
            state.airship().request_time == now,
            run_so_far(
                *req,
                now,
                state.airship().decision_trace@.skip(n0),
                state.airship().decision_answers@.skip(a0),
                node,
            ),
            pre.response is Some ==> state.airship().response is Some,
            negotiated(*req, state.airship().decision_trace@.skip(n0), state.airship().decision_answers@.skip(a0)) matches Some(m)
                ==> chose(state.airship(), m),
            pre.response is Some && state.airship().decision_trace@.skip(n0).len() >= 1
                && state.airship().decision_trace@.skip(n0).last() == Node::N11 ==> (posted_location(
                state.airship().decision_answers@.skip(a0).last(),
            ) matches Some(l) ==> (state.airship().response matches Some(r0) && r0.headers.location
                == Some(l))),
        decreases node.rank(),
    {
        let ghost before = state.airship();
        let (step, allow, ans) = decide(r, req, state, node);
        trace(state, node);
        record_answer(state, ans, Ghost(before.response));
        let ghost after = state.airship();
        assert(after.decision_trace@ == before.decision_trace@.push(node));
        assert(after.decision_answers@ == before.decision_answers@.push(ans@));
        proof {
            lemma_skip_push(before.decision_trace@, node, n0);
            lemma_skip_push(before.decision_answers@, ans@, a0);
            lemma_skip_push(before.decision_seen@, before.response, v0);
            let nb = before.decision_trace@.skip(n0);
            let ab = before.decision_answers@.skip(a0);
            assert(nb.push(node).drop_last() =~= nb);
            assert(ab.push(ans@).drop_last() =~= ab);
        }
        match step {
            Step::Next(next) => {
                proof {
                    lemma_step_decreases(node, *req, now, ans@);
                }
                node = next;
            },
            Step::Halt(code) => {
                let resp = halt(code, allow, state);
                proof {
                    if node == Node::N11 && code == 303 {
                        lemma_see_other_has_location(*req, now, ans@);
                    }
                    lemma_run_halts(
                        *req,
                        now,
                        before.decision_trace@.skip(n0),
                        before.decision_answers@.skip(a0),
                        node,
                        ans@,
                        code,
                    );
                }
                return resp;
            },
        }
    }
}

/// The flag that a node learned (false for any other answer).
fn flag_of(a: &Answer) -> (r: bool)
    ensures
        r == flag(*a),
{
    match a {
        Answer::Flag(b) => *b,
        _ => false,
    }
}

/// Whether the condition is an empty list of entity tags.
fn etags_empty_exec(c: &EtagCondition) -> (r: bool)
    ensures
        r == etags_empty(*c),
{
    match c {
        EtagCondition::Items(v) => v.len() == 0,
        EtagCondition::Any => false,
    }
}

/// Where `node` leads for the request `req` that arrived at `now`, given
/// what the node learned: the graph's decision, one node at a time.
pub fn next_step(node: Node, req: &Request, now: u64, ans: &Answer) -> (s: Step)
    ensures
        s == step_spec(node, *req, now, *ans),
{
    reveal(step_spec);
    let b = flag_of(ans);
    match node {
        Node::B13 => if b { Step::Next(Node::B12) } else { Step::Halt(503) },
        Node::B12 => match req.method {
            Method::Extension(_) => Step::Halt(501),
            _ => Step::Next(Node::B11),
        },
        Node::B11 => if b { Step::Halt(414) } else { Step::Next(Node::B10) },
        Node::B10 => match ans {
            Answer::Methods(ms) => if contains_method(ms, &req.method) {
                Step::Next(Node::B09)
            } else {
                Step::Halt(405)
            },
            _ => Step::Halt(405),
        },
        Node::B09 => if b { Step::Halt(400) } else { Step::Next(Node::B08) },
        Node::B08 => if b { Step::Next(Node::B07) } else { Step::Halt(401) },
        Node::B07 => if b { Step::Halt(403) } else { Step::Next(Node::B06) },
        Node::B06 => if b { Step::Next(Node::B05) } else { Step::Halt(501) },
        Node::B05 => if b { Step::Next(Node::B04) } else { Step::Halt(415) },
        Node::B04 => if b { Step::Halt(413) } else { Step::Next(Node::B03) },
        Node::B03 => match req.method {
            Method::Options => Step::Halt(204),
            _ => Step::Next(Node::C03),
        },
        Node::C03 => if req.accept.is_some() { Step::Next(Node::C04) } else { Step::Next(Node::D04) },
        Node::C04 => match ans {
            Answer::Types(ps) => {
                let found = match &req.accept {
                    Some(accept) => map_accept_media(ps, accept),
                    None => None,
                };
                if found.is_some() {
                    Step::Next(Node::D04)
                } else {
                    Step::Halt(406)
                }
            },
            _ => Step::Halt(406),
        },
        Node::D04 => if req.accept_language.is_some() { Step::Next(Node::D05) } else { Step::Next(Node::E05) },
        Node::D05 => if b { Step::Next(Node::E05) } else { Step::Halt(406) },
        Node::E05 => if req.accept_charset.is_some() { Step::Next(Node::E06) } else { Step::Next(Node::F06) },
        Node::E06 => Step::Next(Node::F06),
        Node::F06 => if req.accept_encoding.is_some() { Step::Next(Node::F07) } else { Step::Next(Node::G07) },
        Node::F07 => Step::Next(Node::G07),
        Node::G07 => if b { Step::Next(Node::G08) } else { Step::Next(Node::H07) },
        Node::G08 => if req.if_match.is_some() { Step::Next(Node::G09) } else { Step::Next(Node::H10) },
        Node::G09 => match &req.if_match {
            Some(EtagCondition::Items(_)) => Step::Next(Node::G11),
            _ => Step::Next(Node::H10),
        },
        Node::G11 => match &req.if_match {
            Some(c) => if etags_empty_exec(c) { Step::Halt(412) } else { Step::Next(Node::H10) },
            None => Step::Next(Node::H10),
        },
        Node::H07 => match &req.if_match {
            Some(EtagCondition::Any) => Step::Halt(412),
            _ => Step::Next(Node::I07),
        },
        Node::H10 => if req.if_unmodified_since.is_some() { Step::Next(Node::H11) } else { Step::Next(Node::I12) },
        Node::H11 => Step::Next(Node::H12),
        Node::H12 => match (req.if_unmodified_since, ans) {
            (Some(since), Answer::Modified(Some(lm))) => if *lm > since {
                Step::Halt(412)
            } else {
                Step::Next(Node::I12)
            },
            _ => Step::Next(Node::I12),
        },
        Node::I04 => match ans {
            Answer::Redirect(Some(_)) => Step::Halt(301),
            _ => Step::Next(Node::P03),
        },
        Node::I07 => match req.method {
            Method::Put => Step::Next(Node::I04),
            _ => Step::Next(Node::K07),
        },
        Node::I12 => if req.if_none_match.is_some() { Step::Next(Node::I13) } else { Step::Next(Node::L13) },
        Node::I13 => match &req.if_none_match {
            Some(EtagCondition::Items(_)) => Step::Next(Node::K13),
            _ => Step::Next(Node::J18),
        },
        Node::J18 => match req.method {
            Method::Get | Method::Head => Step::Halt(304),
            _ => Step::Halt(412),
        },
        Node::K05 => match ans {
            Answer::Redirect(Some(_)) => Step::Halt(301),
            _ => Step::Next(Node::L05),
        },
        Node::K07 => if b { Step::Next(Node::K05) } else { Step::Next(Node::L07) },
        Node::K13 => match &req.if_none_match {
            Some(c) => if etags_empty_exec(c) { Step::Next(Node::L13) } else { Step::Next(Node::J18) },
            None => Step::Next(Node::L13),
        },
        Node::L05 => match ans {
            Answer::Redirect(Some(_)) => Step::Halt(307),
            _ => Step::Next(Node::M05),
        },
        Node::L07 => match req.method {
            Method::Post => Step::Next(Node::M07),
            _ => Step::Halt(404),
        },
        Node::L13 => if req.if_modified_since.is_some() { Step::Next(Node::L14) } else { Step::Next(Node::M16) },
        Node::L14 => Step::Next(Node::L15),
        Node::L15 => match req.if_modified_since {
            Some(since) => if since > now { Step::Next(Node::M16) } else { Step::Next(Node::L17) },
            None => Step::Next(Node::L17),
        },
        Node::L17 => match (req.if_modified_since, ans) {
            (Some(since), Answer::Modified(Some(lm))) => if *lm > since {
                Step::Next(Node::M16)
            } else {
                Step::Halt(304)
            },
            _ => Step::Halt(304),
        },
        Node::M05 => match req.method {
            Method::Post => Step::Next(Node::N05),
            _ => Step::Halt(410),
        },
        Node::M07 => if b { Step::Next(Node::N11) } else { Step::Halt(404) },
        Node::M16 => match req.method {
            Method::Delete => Step::Next(Node::M20),
            _ => Step::Next(Node::N16),
        },
        Node::M20 => match ans {
            Answer::Flags(true, true) => Step::Next(Node::O20),
            Answer::Flags(true, false) => Step::Halt(202),
            _ => Step::Halt(500),
        },
        Node::N05 => if b { Step::Next(Node::N11) } else { Step::Halt(410) },
        Node::N11 => match ans {
            Answer::Posted(kind, accepted, _) => if content_type_match(accepted, req).is_some() {
                match kind {
                    PostKind::Create => Step::Next(Node::P11),
                    PostKind::Process => Step::Next(Node::P11),
                    _ => Step::Halt(303),
                }
            } else {
                Step::Halt(415)
            },
            _ => Step::Halt(415),
        },
        Node::N16 => match req.method {
            Method::Post => Step::Next(Node::N11),
            _ => Step::Next(Node::O16),
        },
        Node::O14 | Node::P03 => match ans {
            Answer::Conflict(true, _) => Step::Halt(409),
            Answer::Conflict(false, accepted) => if content_type_match(accepted, req).is_some() {
                Step::Next(Node::P11)
            } else {
                Step::Halt(415)
            },
            _ => Step::Halt(415),
        },
        Node::O16 => match req.method {
            Method::Put => Step::Next(Node::O14),
            _ => Step::Next(Node::O17),
        },
        Node::O17 => match req.method {
            Method::Patch => match ans {
                Answer::Types(accepted) => if content_type_match(accepted, req).is_some() {
                    Step::Next(Node::O20)
                } else {
                    Step::Halt(415)
                },
                _ => Step::Halt(415),
            },
            _ => Step::Next(Node::O18),
        },
        Node::O18 => match ans {
            Answer::Rendered(x) => if x.multiple {
                Step::Halt(300)
            } else {
                match req.method {
                    Method::Get | Method::Head => if x.chosen.is_some() {
                        Step::Halt(200)
                    } else {
                        Step::Halt(500)
                    },
                    _ => Step::Halt(200),
                }
            },
            _ => Step::Halt(500),
        },
        Node::O20 => if b { Step::Halt(201) } else { Step::Next(Node::O18) },
        Node::P11 => if b { Step::Halt(201) } else { Step::Next(Node::O20) },
    }
}

/// Every edge leads to a node of smaller rank.
proof fn lemma_step_decreases(node: Node, req: Request, now: u64, ans: Answer)
    ensures
        step_spec(node, req, now, ans) matches Step::Next(n) ==> n.rank() < node.rank(),
{
    reveal(step_spec);
}

/// The trace text ends with the label of the last node.
proof fn lemma_trace_text_ends(nodes: Seq<Node>)
    requires
        nodes.len() >= 1,
    ensures
        trace_text(nodes).len() >= nodes.last().label_spec().len(),
        trace_text(nodes).subrange(
            trace_text(nodes).len() - nodes.last().label_spec().len(),
            trace_text(nodes).len() as int,
        ) == nodes.last().label_spec(),
{
    let l = nodes.last().label_spec();
    if nodes.len() == 1 {
        assert(trace_text(nodes).subrange(0, l.len() as int) =~= l);
    } else {
        let head = trace_text(nodes.drop_last()) + ","@;
        assert(trace_text(nodes) == head + l);
        assert((head + l).subrange(head.len() as int, (head + l).len() as int) =~= l);
    }
}

/// In a traversal exactly one node halts: every visited node but the last
/// leads on, and the last one halts with the response's status. Its label is
/// the last entry of the `Airship-Trace` header.
pub proof fn lemma_single_terminal(req: Request, pre: AirshipState, post: AirshipState, resp: Response)
    requires
        traversal_ok(req, pre, post, resp),
    ensures
        forall|i: int|
            0 <= i < visited(pre, post).len() - 1 ==> #[trigger] step_spec(
                visited(pre, post)[i],
                req,
                pre.request_time,
                learned(pre, post)[i],
            ) is Next,
        step_spec(
            visited(pre, post).last(),
            req,
            pre.request_time,
            learned(pre, post).last(),
        ) == Step::Halt(resp.status),
        resp.headers.airship_trace matches Some(t) && t@.len() >= visited(pre, post).last().label_spec().len()
            && t@.subrange(t@.len() - visited(pre, post).last().label_spec().len(), t@.len() as int)
            == visited(pre, post).last().label_spec(),
{
    let nodes = visited(pre, post);
    let all = post.decision_trace@;
    assert(all.last() == nodes.last());
    lemma_trace_text_ends(all);
}

/// Whatever else the resource answers, a traversal in which `b13` learned
/// that the service is unavailable visits `b13` alone and ends in `503`.
pub proof fn lemma_unavailable_is_503(req: Request, pre: AirshipState, post: AirshipState, resp: Response)
    requires
        traversal_ok(req, pre, post, resp),
        learned(pre, post)[0] == Answer::Flag(false),
    ensures
        resp.status == 503,
        visited(pre, post) == seq![Node::B13],
{
    reveal(step_spec);
    let nodes = visited(pre, post);
    let answers = learned(pre, post);
    if nodes.len() > 1 {
        assert(step_spec(nodes[0], req, pre.request_time, answers[0]) == Step::Next(nodes[1]));
    }
    assert(nodes =~= seq![Node::B13]);
}

/// Every `405` response comes from `b10`, and its `Allow` header is the
/// list of methods that the resource allows, which lacks the request's
/// method.
pub proof fn lemma_405_lists_allowed(req: Request, pre: AirshipState, post: AirshipState, resp: Response)
    requires
        traversal_ok(req, pre, post, resp),
        resp.status == 405,
    ensures
        visited(pre, post).last() == Node::B10,
        learned(pre, post).last() matches Answer::Methods(ms) && resp.headers.allow == Some(ms)
            && !lists_method(ms@, req.method),
{
    reveal(step_spec);
}

/// What a resource that keeps its defaults answers, except that it allows
/// the request's method, exists, and provides a media type that `Accept`
/// can be met with.
pub open spec fn cooperative(node: Node, ans: Answer, req: Request) -> bool {
    match node {
        Node::B13 => ans == Answer::Flag(true),
        Node::B11 => ans == Answer::Flag(false),
        Node::B10 => ans matches Answer::Methods(ms) && lists_method(ms@, req.method),
        Node::B09 => ans == Answer::Flag(false),
        Node::B08 => ans == Answer::Flag(true),
        Node::B07 => ans == Answer::Flag(false),
        Node::B06 => ans == Answer::Flag(true),
        Node::B05 => ans == Answer::Flag(true),
        Node::B04 => ans == Answer::Flag(false),
        Node::C04 => c04_choice(req, ans) is Some,
        Node::D05 => ans == Answer::Flag(true),
        Node::G07 => ans == Answer::Flag(true),
        Node::O18 => ans matches Answer::Rendered(x) && !x.multiple,
        _ => true,
    }
}

/// The nodes that a `GET` with `Accept` and no conditional header passes
/// through when the resource cooperates.
pub open spec fn on_get_path(n: Node) -> bool {
    n == Node::B13 || n == Node::B12 || n == Node::B11 || n == Node::B10 || n == Node::B09 || n
        == Node::B08 || n == Node::B07 || n == Node::B06 || n == Node::B05 || n == Node::B04 || n
        == Node::B03 || n == Node::C03 || n == Node::C04 || after_c04(n)
}

pub open spec fn after_c04(n: Node) -> bool {
    n == Node::D04 || n == Node::D05 || n == Node::E05 || n == Node::E06 || n == Node::F06 || n
        == Node::F07 || n == Node::G07 || n == Node::G08 || n == Node::H10 || n == Node::I12 || n
        == Node::L13 || n == Node::M16 || n == Node::N16 || n == Node::O16 || n == Node::O17 || n
        == Node::O18
}

/// A plain `GET` that the resource cooperates with.
pub open spec fn plain_get(req: Request) -> bool {
    &&& req.method is Get
    &&& req.accept is Some
    &&& req.if_match is None
    &&& req.if_none_match is None
    &&& req.if_modified_since is None
    &&& req.if_unmodified_since is None
}

/// Along such a walk every node is on the path, and past `c04` a media
/// type has been chosen.
proof fn lemma_get_walk(req: Request, now: u64, nodes: Seq<Node>, answers: Seq<Answer>, status: u16, i: int)
    requires
        valid_run(req, now, nodes, answers, status),
        plain_get(req),
        forall|k: int| 0 <= k < nodes.len() ==> #[trigger] cooperative(nodes[k], answers[k], req),
        0 <= i < nodes.len(),
    ensures
        on_get_path(nodes[i]),
        after_c04(nodes[i]) ==> negotiated(req, nodes.take(i), answers.take(i)) is Some,
    decreases i,
{
    reveal(step_spec);
    if i > 0 {
        lemma_get_walk(req, now, nodes, answers, status, i - 1);
        let p = nodes[i - 1];
        assert(step_spec(p, req, now, answers[i - 1]) == Step::Next(nodes[i]));
        assert(cooperative(p, answers[i - 1], req));
        assert(nodes.take(i).drop_last() =~= nodes.take(i - 1));
        assert(answers.take(i).drop_last() =~= answers.take(i - 1));
        assert(nodes.take(i).last() == p);
        assert(answers.take(i).last() == answers[i - 1]);
    }
}

/// A `GET` that the resource allows, to a resource that exists and that
/// provides a media type `Accept` can be met with, with no conditional
/// header and every other callback at its default, ends in `200` at `o18`
/// with the negotiated media type as `Content-Type`.
pub proof fn lemma_get_serves_negotiated(req: Request, pre: AirshipState, post: AirshipState, resp: Response)
    requires
        traversal_ok(req, pre, post, resp),
        pre.response is Some,
        plain_get(req),
        forall|k: int|
            0 <= k < visited(pre, post).len() ==> #[trigger] cooperative(
                visited(pre, post)[k],
                learned(pre, post)[k],
                req,
            ),
    ensures
        resp.status == 200,
        visited(pre, post).last() == Node::O18,
        negotiated(req, visited(pre, post), learned(pre, post)) is Some,
        resp.headers.content_type == negotiated(req, visited(pre, post), learned(pre, post)),
        learned(pre, post).last() matches Answer::Rendered(x) && x.body is Some && resp.body == x.body,
{
    reveal(step_spec);
    let nodes = visited(pre, post);
    let answers = learned(pre, post);
    let n = nodes.len() - 1;
    assert forall|k: int| 0 <= k < nodes.len() implies #[trigger] cooperative(nodes[k], answers[k], req) by {
        assert(cooperative(visited(pre, post)[k], learned(pre, post)[k], req));
    }
    lemma_get_walk(req, pre.request_time, nodes, answers, resp.status, n);
    assert(cooperative(nodes[n], answers[n], req));
    assert(nodes[n] == Node::O18);
    assert(nodes.take(n).push(nodes[n]) =~= nodes);
    assert(answers.take(n).push(answers[n]) =~= answers);
    assert(nodes.drop_last() =~= nodes.take(n));
    assert(answers.drop_last() =~= answers.take(n));
    assert(seen_by(pre, post).len() == nodes.len());
    assert(learned_right(req, nodes[n], answers[n], seen_by(pre, post)[n]));
    assert(resp.status == 200);
    assert(o18_result(resp, answers.last(), seen_by(pre, post).last()));
}

} // verus!
