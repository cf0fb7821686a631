//! A resource server core: a routing trie that maps request paths to
//! resources, and the decision graph that turns a request and a resource's
//! answers into an HTTP response.

pub mod decision;
pub mod http;
pub mod resource;
pub mod route;
pub mod text;
pub mod types;
