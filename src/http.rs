//! The request and response model that the decision graph reads and writes.
use vstd::prelude::*;

verus! {

/// An HTTP request method.
#[derive(Clone, Debug)]
pub enum Method {
    Get,
    Post,
    Head,
    Put,
    Delete,
    Trace,
    Connect,
    Options,
    Patch,
    /// Any other method, by name.
    Extension(String),
}

/// Two methods are the same method (an extension method by its name).
pub open spec fn same_method_spec(a: Method, b: Method) -> bool {
    match a {
        Method::Extension(x) => match b {
            Method::Extension(y) => x@ == y@,
            _ => false,
        },
        _ => a == b,
    }
}

/// The list holds the method.
pub open spec fn lists_method(ms: Seq<Method>, m: Method) -> bool {
    exists|i: int| 0 <= i < ms.len() && same_method_spec(#[trigger] ms[i], m)
}

/// Whether two methods are the same method.
pub fn same_method(a: &Method, b: &Method) -> (r: bool)
    ensures
        r == same_method_spec(*a, *b),
{
    match a {
        Method::Get => match b {
            Method::Get => true,
            _ => false,
        },
        Method::Post => match b {
            Method::Post => true,
            _ => false,
        },
        Method::Head => match b {
            Method::Head => true,
            _ => false,
        },
        Method::Put => match b {
            Method::Put => true,
            _ => false,
        },
        Method::Delete => match b {
            Method::Delete => true,
            _ => false,
        },
        Method::Trace => match b {
            Method::Trace => true,
            _ => false,
        },
        Method::Connect => match b {
            Method::Connect => true,
            _ => false,
        },
        Method::Options => match b {
            Method::Options => true,
            _ => false,
        },
        Method::Patch => match b {
            Method::Patch => true,
            _ => false,
        },
        Method::Extension(x) => match b {
            Method::Extension(y) => *x == *y,
            _ => false,
        },
    }
}

/// Whether `ms` holds the method `m`.
pub fn contains_method(ms: &Vec<Method>, m: &Method) -> (r: bool)
    ensures
        r == lists_method(ms@, *m),
{
    let mut i: usize = 0;
    while i < ms.len()
        invariant
            0 <= i <= ms.len(),
            forall|k: int| 0 <= k < i ==> !same_method_spec(#[trigger] ms@[k], *m),
        decreases ms.len() - i,
    {
        if same_method(&ms[i], m) {
            return true;
        }
        i = i + 1;
    }
    false
}

/// A media type such as `text/plain`, by its type and subtype.
#[derive(Clone, Debug)]
pub struct MediaType {
    pub type_: String,
    pub subtype: String,
}

impl MediaType {
    /// The media type `type_/subtype`.
    pub fn new(type_: &str, subtype: &str) -> (r: MediaType)
        ensures
            r.type_@ == type_@,
            r.subtype@ == subtype@,
    {
        MediaType { type_: String::from_str(type_), subtype: String::from_str(subtype) }
    }
}

impl MediaType {
    /// A copy of this media type.
    pub fn duplicate(&self) -> (r: MediaType)
        ensures
            r == *self,
    {
        MediaType { type_: self.type_.clone(), subtype: self.subtype.clone() }
    }
}

/// Two media types have the same type and subtype.
pub open spec fn same_media_spec(a: MediaType, b: MediaType) -> bool {
    a.type_@ == b.type_@ && a.subtype@ == b.subtype@
}

/// Whether two media types have the same type and subtype.
pub fn same_media(a: &MediaType, b: &MediaType) -> (r: bool)
    ensures
        r == same_media_spec(*a, *b),
{
    a.type_ == b.type_ && a.subtype == b.subtype
}

/// One entry of an `Accept` header: a media range and its quality, in
/// thousandths (from 0 to 1000).
#[derive(Clone, Debug)]
pub struct QualityItem {
    pub item: MediaType,
    pub quality: u16,
}

/// An entity tag.
#[derive(Clone, Debug)]
pub struct EntityTag {
    pub weak: bool,
    pub tag: String,
}

/// The value of an `If-Match` or `If-None-Match` header.
#[derive(Clone, Debug)]
pub enum EtagCondition {
    /// `*`
    Any,
    /// A list of entity tags.
    Items(Vec<EntityTag>),
}

/// A request, as the decision graph reads it. Dates are seconds since the
/// Unix epoch.
#[derive(Clone, Debug)]
pub struct Request {
    pub method: Method,
    pub path: String,
    pub accept: Option<Vec<QualityItem>>,
    pub accept_language: Option<String>,
    pub accept_charset: Option<String>,
    pub accept_encoding: Option<String>,
    pub content_type: Option<MediaType>,
    pub if_match: Option<EtagCondition>,
    pub if_none_match: Option<EtagCondition>,
    pub if_modified_since: Option<u64>,
    pub if_unmodified_since: Option<u64>,
}

impl Request {
    /// A request with the given method and path and none of the headers
    /// that the decision graph reads.
    pub fn new(method: Method, path: &str) -> (r: Request)
        ensures
            r.method == method,
            r.path@ == path@,
            r.accept is None,
            r.accept_language is None,
            r.accept_charset is None,
            r.accept_encoding is None,
            r.content_type is None,
            r.if_match is None,
            r.if_none_match is None,
            r.if_modified_since is None,
            r.if_unmodified_since is None,
    {
        Request {
            method,
            path: String::from_str(path),
            accept: None,
            accept_language: None,
            accept_charset: None,
            accept_encoding: None,
            content_type: None,
            if_match: None,
            if_none_match: None,
            if_modified_since: None,
            if_unmodified_since: None,
        }
    }
}

/// The headers of a response that the decision graph sets.
#[derive(Clone, Debug)]
pub struct ResponseHeaders {
    pub allow: Option<Vec<Method>>,
    pub location: Option<String>,
    pub content_type: Option<MediaType>,
    pub etag: Option<EntityTag>,
    pub last_modified: Option<u64>,
    pub server: Option<String>,
    pub airship_trace: Option<String>,
    pub airship_quip: Option<String>,
}

/// One header to set on a response.
#[derive(Clone, Debug)]
pub enum ResponseHeader {
    Allow(Vec<Method>),
    Location(String),
    ContentType(MediaType),
    ETag(EntityTag),
    LastModified(u64),
}

/// A response: status code, headers and an optional body.
#[derive(Clone, Debug)]
pub struct Response {
    pub status: u16,
    pub headers: ResponseHeaders,
    pub body: Option<String>,
}

/// The headers after `h` is set on `hs`; the others stay as they were.
pub open spec fn with_header(hs: ResponseHeaders, h: ResponseHeader) -> ResponseHeaders {
    match h {
        ResponseHeader::Allow(v) => ResponseHeaders { allow: Some(v), ..hs },
        ResponseHeader::Location(v) => ResponseHeaders { location: Some(v), ..hs },
        ResponseHeader::ContentType(v) => ResponseHeaders { content_type: Some(v), ..hs },
        ResponseHeader::ETag(v) => ResponseHeaders { etag: Some(v), ..hs },
        ResponseHeader::LastModified(v) => ResponseHeaders { last_modified: Some(v), ..hs },
    }
}

impl Response {
    /// A blank response: status 200, no headers and no body.
    pub fn new() -> (r: Response)
        ensures
            r == blank_response(),
    {
        Response {
            status: 200,
            headers: ResponseHeaders {
                allow: None,
                location: None,
                content_type: None,
                etag: None,
                last_modified: None,
                server: None,
                airship_trace: None,
                airship_quip: None,
            },
            body: None,
        }
    }

    /// Sets one header, replacing any earlier value of it.
    pub fn set_header(&mut self, h: ResponseHeader)
        ensures
            final(self).status == old(self).status,
            final(self).body == old(self).body,
            final(self).headers == with_header(old(self).headers, h),
    {
        match h {
            ResponseHeader::Allow(v) => self.headers.allow = Some(v),
            ResponseHeader::Location(v) => self.headers.location = Some(v),
            ResponseHeader::ContentType(v) => self.headers.content_type = Some(v),
            ResponseHeader::ETag(v) => self.headers.etag = Some(v),
            ResponseHeader::LastModified(v) => self.headers.last_modified = Some(v),
        }
    }
}

/// Status 200, no header and no body.
pub open spec fn blank_response() -> Response {
    Response { status: 200, headers: empty_headers(), body: None }
}

/// No header set.
pub open spec fn empty_headers() -> ResponseHeaders {
    ResponseHeaders {
        allow: None,
        location: None,
        content_type: None,
        etag: None,
        last_modified: None,
        server: None,
        airship_trace: None,
        airship_quip: None,
    }
}

} // verus!
