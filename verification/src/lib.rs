//! A typed, transport-free core for the niconico "mylist" web API.
//!
//! The crate builds the requests for the two mylist endpoints, decides how a
//! response is to be read from its HTTP status, and walks the pages of one
//! mylist until the server reports the last one. It performs no I/O: a caller
//! sends what the crate asks for and hands back what came.
//!
//! - [`model`] holds the values that the API exchanges.
//! - [`request`] builds the addresses, and names the header and the cookies
//!   that every request carries.
//! - [`response`] reads a response: an error envelope above status 299, the
//!   envelope of a result otherwise.
//! - [`paging`] gathers a whole mylist. A caller asks the [`Walk`] for the
//!   next request, sends it, and hands the answer to [`Walk::step`], until
//!   the walk asks for nothing more and [`Walk::outcome`] holds the result.
//! - [`decimal`] writes numbers as they stand in the addresses.
//! - [`error`] names the ways in which an operation fails.

pub mod decimal;
pub mod error;
pub mod model;
pub mod paging;
pub mod request;
pub mod response;

pub use crate::error::Error;
pub use crate::model::{
    Count, Item, Mylist, MylistDetail, MylistResponse, MylistsResponse, NicoError, NicoMeta,
    NicoResult, Owner, Page, Thumbnail, Video,
};
pub use crate::paging::{Phase, Walk};
pub use crate::request::{
    mylist_url, mylist_url_string, mylists_url, mylists_url_string, PageRequest, Session,
    API_ORIGIN, FRONTEND_ID, FRONTEND_ID_HEADER, PAGE_SIZE,
};
pub use crate::response::{decode_response, failure, receive, status_is_failure, success};
