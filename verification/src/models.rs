//! Records exchanged with clients and kept in the store.
//!
//! Every record that the engine reasons about has a view over sequences of
//! characters, and the contracts of the engine are stated over those views.

use vstd::prelude::*;

use crate::text::{same_optional_text, same_text};

verus! {

/// Body of a registration request.
#[derive(Debug, Clone, PartialEq, Eq)]
pub struct CreateUserRequest {
    pub username: String,
    pub password: String,
}

/// Body of the answer to an accepted registration.
#[derive(Debug, Clone, PartialEq, Eq)]
pub struct CreateUserResponse {
    pub username: String,
}

/// Body of the answer to a successful authentication.
#[derive(Debug, Clone, PartialEq, Eq)]
pub struct AuthResponse {
    pub authorized: &'static str,
}

impl AuthResponse {
    /// The one answer there is: the word `OK`.
    pub fn ok() -> (r: Self)
        ensures
            r.authorized@ == "OK"@,
    {
        AuthResponse { authorized: "OK" }
    }
}

/// Body of a progress upload.
///
/// `percentage` holds the bit pattern of the uploaded double: the engine
/// carries the number and never computes with it.
#[derive(Debug, Clone, PartialEq, Eq)]
pub struct UpdateProgressRequest {
    pub document: String,
    pub progress: String,
    pub percentage: u64,
    pub device: String,
    pub device_id: Option<String>,
}

/// Body of the answer to an accepted progress upload.
#[derive(Debug, Clone, PartialEq, Eq)]
pub struct UpdateProgressResponse {
    pub document: String,
    pub timestamp: i64,
}

/// The reading position stored for one user and document. A record that was
/// never written has every field absent.
///
/// `percentage` holds the bit pattern of the stored double.
#[derive(Debug, Clone, PartialEq, Eq)]
pub struct Progress {
    pub document: Option<String>,
    pub progress: Option<String>,
    pub percentage: Option<u64>,
    pub device: Option<String>,
    pub device_id: Option<String>,
    pub timestamp: Option<i64>,
}

/// What a [`Progress`] record holds.
pub struct ProgressView {
    pub document: Option<Seq<char>>,
    pub progress: Option<Seq<char>>,
    pub percentage: Option<u64>,
    pub device: Option<Seq<char>>,
    pub device_id: Option<Seq<char>>,
    pub timestamp: Option<i64>,
}

impl ProgressView {
    /// The record of a document that was never written.
    pub open spec fn absent() -> ProgressView {
        ProgressView {
            document: None,
            progress: None,
            percentage: None,
            device: None,
            device_id: None,
            timestamp: None,
        }
    }
}

impl DeepView for Progress {
    type V = ProgressView;

    open spec fn deep_view(&self) -> ProgressView {
        ProgressView {
            document: self.document.deep_view(),
            progress: self.progress.deep_view(),
            percentage: self.percentage,
            device: self.device.deep_view(),
            device_id: self.device_id.deep_view(),
            timestamp: self.timestamp,
        }
    }
}

impl View for Progress {
    type V = ProgressView;

    open spec fn view(&self) -> ProgressView {
        self.deep_view()
    }
}

impl Default for Progress {
    fn default() -> (r: Self)
        ensures
            r@ == ProgressView::absent(),
    {
        Progress {
            document: None,
            progress: None,
            percentage: None,
            device: None,
            device_id: None,
            timestamp: None,
        }
    }
}

/// One highlight, note or bookmark.
///
/// `page`, `pos0` and `pos1` hold the JSON encoding of the locators, which is
/// all the engine reads of them: two annotations stand for the same mark when
/// the three encodings agree.
#[derive(Debug, Clone, PartialEq, Eq)]
pub struct Annotation {
    pub datetime: String,
    pub datetime_updated: Option<String>,
    pub drawer: Option<String>,
    pub color: Option<String>,
    pub text: Option<String>,
    pub text_edited: Option<bool>,
    pub note: Option<String>,
    pub chapter: Option<String>,
    pub pageno: Option<i32>,
    pub page: String,
    pub pos0: Option<String>,
    pub pos1: Option<String>,
}

/// The place an annotation marks: its page and the two ends of its range.
pub struct Position {
    pub page: Seq<char>,
    pub pos0: Option<Seq<char>>,
    pub pos1: Option<Seq<char>>,
}

/// What an [`Annotation`] holds.
pub struct AnnotationView {
    pub datetime: Seq<char>,
    pub datetime_updated: Option<Seq<char>>,
    pub drawer: Option<Seq<char>>,
    pub color: Option<Seq<char>>,
    pub text: Option<Seq<char>>,
    pub text_edited: Option<bool>,
    pub note: Option<Seq<char>>,
    pub chapter: Option<Seq<char>>,
    pub pageno: Option<i32>,
    pub page: Seq<char>,
    pub pos0: Option<Seq<char>>,
    pub pos1: Option<Seq<char>>,
}

impl AnnotationView {
    /// The place that decides whether two annotations are the same mark.
    pub open spec fn position(self) -> Position {
        Position { page: self.page, pos0: self.pos0, pos1: self.pos1 }
    }

    /// The time by which recency is judged: that of the last change where
    /// there is one, else that of creation.
    pub open spec fn effective_time(self) -> Seq<char> {
        match self.datetime_updated {
            Some(t) => t,
            None => self.datetime,
        }
    }
}

impl DeepView for Annotation {
    type V = AnnotationView;

    open spec fn deep_view(&self) -> AnnotationView {
        AnnotationView {
            datetime: self.datetime@,
            datetime_updated: self.datetime_updated.deep_view(),
            drawer: self.drawer.deep_view(),
            color: self.color.deep_view(),
            text: self.text.deep_view(),
            text_edited: self.text_edited,
            note: self.note.deep_view(),
            chapter: self.chapter.deep_view(),
            pageno: self.pageno,
            page: self.page@,
            pos0: self.pos0.deep_view(),
            pos1: self.pos1.deep_view(),
        }
    }
}

impl View for Annotation {
    type V = AnnotationView;

    open spec fn view(&self) -> AnnotationView {
        self.deep_view()
    }
}

impl Annotation {
    /// The time by which recency is judged.
    pub fn effective_time(&self) -> (t: &str)
        ensures
            t@ == self@.effective_time(),
    {
        match &self.datetime_updated {
            Some(t) => t.as_str(),
            None => self.datetime.as_str(),
        }
    }

    /// Whether `self` and `other` mark the same place.
    pub fn same_position(&self, other: &Annotation) -> (same: bool)
        ensures
            same == (self@.position() == other@.position()),
    {
        same_text(self.page.as_str(), other.page.as_str()) && same_optional_text(
            &self.pos0,
            &other.pos0,
        ) && same_optional_text(&self.pos1, &other.pos1)
    }
}

/// The annotations stored for one user and document.
#[derive(Debug, Clone, PartialEq, Eq)]
pub struct DocumentAnnotations {
    pub version: u64,
    pub annotations: Vec<Annotation>,
    pub deleted: Vec<String>,
    pub updated_at: i64,
}

/// What a [`DocumentAnnotations`] record holds.
pub struct DocumentView {
    pub version: nat,
    pub annotations: Seq<AnnotationView>,
    pub deleted: Seq<Seq<char>>,
    pub updated_at: int,
}

/// No two annotations of `held` mark the same place.
pub open spec fn distinct_positions(held: Seq<AnnotationView>) -> bool {
    forall|i: int, j: int|
        0 <= i < j < held.len() ==> (#[trigger] held[i]).position() != (
        #[trigger] held[j]).position()
}

impl DocumentView {
    /// The record of a document that was never written.
    pub open spec fn absent() -> DocumentView {
        DocumentView {
            version: 0,
            annotations: Seq::empty(),
            deleted: Seq::empty(),
            updated_at: 0,
        }
    }

    /// The record holds at most one annotation per position and each
    /// tombstone once.
    pub open spec fn is_tidy(self) -> bool {
        distinct_positions(self.annotations) && self.deleted.no_duplicates()
    }

    /// No annotation of the record was created at a time that the record
    /// holds as a tombstone.
    pub open spec fn is_purged(self) -> bool {
        forall|i: int|
            0 <= i < self.annotations.len() ==> !self.deleted.contains(
                (#[trigger] self.annotations[i]).datetime,
            )
    }
}

impl DeepView for DocumentAnnotations {
    type V = DocumentView;

    open spec fn deep_view(&self) -> DocumentView {
        DocumentView {
            version: self.version as nat,
            annotations: self.annotations.deep_view(),
            deleted: self.deleted.deep_view(),
            updated_at: self.updated_at as int,
        }
    }
}

impl View for DocumentAnnotations {
    type V = DocumentView;

    open spec fn view(&self) -> DocumentView {
        self.deep_view()
    }
}

impl Default for DocumentAnnotations {
    fn default() -> (r: Self)
        ensures
            r@ == DocumentView::absent(),
    {
        let r = DocumentAnnotations {
            version: 0,
            annotations: Vec::new(),
            deleted: Vec::new(),
            updated_at: 0,
        };
        assert(r.annotations.deep_view() =~= Seq::empty());
        assert(r.deleted.deep_view() =~= Seq::empty());
        r
    }
}

/// Body of an annotation upload.
#[derive(Debug, Clone, PartialEq, Eq)]
pub struct UpdateAnnotationsRequest {
    pub annotations: Vec<Annotation>,
    pub deleted: Vec<String>,
    pub base_version: Option<u64>,
}

/// Body of the answer to an accepted annotation upload.
#[derive(Debug, Clone, PartialEq, Eq)]
pub struct UpdateAnnotationsResponse {
    pub version: u64,
    pub timestamp: i64,
}

/// Body of every failed request: a numeric code and a readable message.
#[derive(Debug, Clone, PartialEq, Eq)]
pub struct ErrorResponse {
    pub code: u32,
    pub message: String,
}

impl ErrorResponse {
    /// The body with the given code and message.
    pub fn new(code: u32, message: String) -> (r: Self)
        ensures
            r.code == code,
            r.message == message,
    {
        ErrorResponse { code, message }
    }
}

} // verus!
