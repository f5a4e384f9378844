//! The values that the mylist API exchanges: the envelope around every
//! response, and the mylists, items and videos inside it.
//!
//! All of them are plain immutable values. Sequences that a response may
//! leave out (`mylists`, `sample_items`, `items`) are held as empty vectors,
//! never as absent ones.

use vstd::prelude::*;

verus! {

/// The status block that every response carries.
#[derive(Debug, Clone, PartialEq, Eq)]
pub struct NicoMeta {
    /// The status code as the API reports it inside the body.
    pub status: usize,
    /// The API's error code, present on failures.
    pub error_code: Option<String>,
}

/// The envelope of a successful response: the status block and the payload.
///
/// An endpoint that may answer without a payload is read with
/// `T = Option<..>`; `None` then stands for the missing payload.
#[derive(Debug, Clone, PartialEq, Eq)]
pub struct NicoResult<T> {
    pub meta: NicoMeta,
    pub data: T,
}

impl<T> NicoResult<T> {
    /// The same envelope for a reader that allows for a missing payload.
    pub fn into_optional(self) -> (envelope: NicoResult<Option<T>>)
        ensures
            envelope.meta == self.meta,
            envelope.data == Some(self.data),
    {
        NicoResult { meta: self.meta, data: Some(self.data) }
    }
}

impl<T> NicoResult<Option<T>> {
    /// The same envelope for a reader that insists on a payload; `None`
    /// when there is no payload.
    pub fn into_required(self) -> (envelope: Option<NicoResult<T>>)
        ensures
            envelope == match self.data {
                Some(data) => Some(NicoResult { meta: self.meta, data }),
                None => None,
            },
    {
        match self.data {
            Some(data) => Some(NicoResult { meta: self.meta, data }),
            None => None,
        }
    }
}

/// The envelope of a failed response: the status block alone.
#[derive(Debug, Clone, PartialEq, Eq)]
pub struct NicoError {
    pub meta: NicoMeta,
}

/// Who owns a mylist or a video. An owner may be hidden or be a channel, so
/// everything but the kind is optional.
#[derive(Debug, Clone, PartialEq, Eq)]
pub struct Owner {
    pub owner_type: String,
    pub id: Option<String>,
    pub name: Option<String>,
    pub icon_url: Option<String>,
}

/// The counters of a video.
#[derive(Debug, Clone, PartialEq, Eq)]
pub struct Count {
    pub view: usize,
    pub comment: usize,
    pub mylist: usize,
    pub like: usize,
}

/// The thumbnail of a video: its address, and the addresses of the other
/// resolutions where the API names them.
#[derive(Debug, Clone, PartialEq, Eq)]
pub struct Thumbnail {
    pub url: String,
    pub middle_url: Option<String>,
    pub large_url: Option<String>,
    pub listing_url: Option<String>,
    pub n_hd_url: Option<String>,
}

/// A video as it is embedded in a mylist item.
#[derive(Debug, Clone, PartialEq, Eq)]
pub struct Video {
    /// The kind of video; `type` on the wire.
    pub video_type: String,
    pub id: String,
    pub title: String,
    pub registered_at: String,
    pub count: Count,
    pub thumbnail: Thumbnail,
    /// The length in seconds.
    pub duration: usize,
    pub short_description: String,
    pub latest_comment_summary: String,
    pub is_channel_video: bool,
    pub is_payment_required: bool,
    /// Where the viewer stopped, in seconds, as the bit pattern of an IEEE 754
    /// single-precision number. The bits are carried, never interpreted.
    pub playback_position: Option<u32>,
    pub owner: Owner,
    pub require_sensitive_masking: bool,
    pub video_live: Option<String>,
    /// A flag that the API names `9d091f87` and does not explain.
    pub n_9d091f87: bool,
    /// A flag that the API names `acf68865` and does not explain.
    pub n_acf68865: bool,
}

/// One entry of a mylist.
#[derive(Debug, Clone, PartialEq, Eq)]
pub struct Item {
    pub item_id: usize,
    pub watch_id: String,
    pub description: String,
    pub added_at: String,
    pub status: String,
    pub video: Video,
}

/// A mylist as the listing endpoint shows it, with a few sample items.
#[derive(Debug, Clone, PartialEq, Eq)]
pub struct Mylist {
    pub id: usize,
    pub is_public: bool,
    pub name: String,
    pub description: String,
    pub default_sort_key: String,
    pub default_sort_order: String,
    pub items_count: usize,
    pub owner: Owner,
    pub sample_items: Vec<Item>,
    pub follower_count: usize,
    pub created_at: String,
    pub is_following: bool,
}

/// A mylist of the listing endpoint as a mathematical value: the sample
/// items are a sequence.
pub struct MylistView {
    pub id: usize,
    pub is_public: bool,
    pub name: String,
    pub description: String,
    pub default_sort_key: String,
    pub default_sort_order: String,
    pub items_count: usize,
    pub owner: Owner,
    pub sample_items: Seq<Item>,
    pub follower_count: usize,
    pub created_at: String,
    pub is_following: bool,
}

impl View for Mylist {
    type V = MylistView;

    open spec fn view(&self) -> MylistView {
        MylistView {
            id: self.id,
            is_public: self.is_public,
            name: self.name,
            description: self.description,
            default_sort_key: self.default_sort_key,
            default_sort_order: self.default_sort_order,
            items_count: self.items_count,
            owner: self.owner,
            sample_items: self.sample_items@,
            follower_count: self.follower_count,
            created_at: self.created_at,
            is_following: self.is_following,
        }
    }
}

/// The payload of the listing endpoint.
#[derive(Debug, Clone, PartialEq, Eq)]
pub struct MylistsResponse {
    pub mylists: Vec<Mylist>,
}

impl View for MylistsResponse {
    type V = Seq<MylistView>;

    /// The mylists, in the order of the response.
    open spec fn view(&self) -> Seq<MylistView> {
        Seq::new(self.mylists@.len(), |i: int| self.mylists@[i]@)
    }
}

/// One page of a mylist: its description and the items of that page.
#[derive(Debug, Clone, PartialEq, Eq)]
pub struct MylistDetail {
    pub id: usize,
    pub name: String,
    pub description: String,
    pub default_sort_key: String,
    pub default_sort_order: String,
    /// The items of this page, in the order the server gave them.
    pub items: Vec<Item>,
    pub total_item_count: usize,
    /// Whether the server has a further page.
    pub has_next: bool,
    pub is_public: bool,
    pub owner: Owner,
    pub has_invisible_items: bool,
    pub follower_count: usize,
    pub is_following: bool,
}

/// One page of a mylist as a mathematical value: the items are a sequence.
pub struct MylistDetailView {
    pub id: usize,
    pub name: String,
    pub description: String,
    pub default_sort_key: String,
    pub default_sort_order: String,
    pub items: Seq<Item>,
    pub total_item_count: usize,
    pub has_next: bool,
    pub is_public: bool,
    pub owner: Owner,
    pub has_invisible_items: bool,
    pub follower_count: usize,
    pub is_following: bool,
}

impl View for MylistDetail {
    type V = MylistDetailView;

    open spec fn view(&self) -> MylistDetailView {
        MylistDetailView {
            id: self.id,
            name: self.name,
            description: self.description,
            default_sort_key: self.default_sort_key,
            default_sort_order: self.default_sort_order,
            items: self.items@,
            total_item_count: self.total_item_count,
            has_next: self.has_next,
            is_public: self.is_public,
            owner: self.owner,
            has_invisible_items: self.has_invisible_items,
            follower_count: self.follower_count,
            is_following: self.is_following,
        }
    }
}

/// The payload of the detail endpoint.
#[derive(Debug, Clone, PartialEq, Eq)]
pub struct MylistResponse {
    pub mylist: MylistDetail,
}

impl View for MylistResponse {
    type V = MylistDetailView;

    /// A detail response is the page that it wraps.
    open spec fn view(&self) -> MylistDetailView {
        self.mylist@
    }
}

/// The envelope of one page of a mylist. The payload is optional: the API
/// may answer with a status block alone.
pub type Page = NicoResult<Option<MylistResponse>>;

/// The envelope of one page as a mathematical value.
pub struct PageView {
    pub meta: NicoMeta,
    pub data: Option<MylistDetailView>,
}

impl View for NicoResult<Option<MylistResponse>> {
    type V = PageView;

    open spec fn view(&self) -> PageView {
        PageView {
            meta: self.meta,
            data: match self.data {
                Some(response) => Some(response@),
                None => None,
            },
        }
    }
}

} // verus!
