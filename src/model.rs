use vstd::prelude::*;

verus! {

/// Body of a successful answer of the token endpoint.
pub struct AuthResponse {
    pub access_token: String,
    pub token_type: String,
    /// Lifetime of the token, in seconds.
    pub expires_in: u64,
    pub scope: String,
}

/// Paging information of an events answer.
#[derive(Debug, PartialEq, Eq, Structural, Clone, Copy)]
pub struct Meta {
    pub count: i32,
    pub offset: i32,
    pub limit: i32,
}

/// Where an event took place before a schedule exception moved it.
/// Times are seconds since the Unix epoch, UTC.
pub struct OriginalData {
    pub starts_at: Option<i64>,
    pub ends_at: Option<i64>,
    pub room_id: Option<String>,
}

/// Links of an event to other entities. The lists are empty where the
/// answer left them out.
pub struct Links {
    pub room: String,
    pub course: String,
    pub teachers: Vec<String>,
    pub students: Vec<String>,
    pub applied_exceptions: Vec<i32>,
}

/// A schedule entry of a course. Times are seconds since the Unix epoch,
/// UTC.
pub struct Event {
    pub id: i32,
    pub name: Option<String>,
    pub sequence_number: i32,
    pub starts_at: i64,
    pub ends_at: i64,
    pub deleted: bool,
    pub capacity: i32,
    pub occupied: i32,
    /// One of assessment, course_event, exam, laboratory, lecture, tutorial.
    pub event_type: String,
    pub parallel: String,
    pub original_data: OriginalData,
    pub links: Links,
}

/// One page of events.
pub struct EventsResponse {
    pub meta: Meta,
    pub events: Vec<Event>,
}

/// Author of a news item.
pub struct NewsAuthor {
    pub name: String,
    pub uri: Option<String>,
}

/// A news item of a course page. Times are seconds since the Unix epoch,
/// UTC.
pub struct News {
    pub id: String,
    pub title: String,
    pub content: String,
    pub created_at: i64,
    pub created_by: NewsAuthor,
    pub modified_at: Option<i64>,
    pub modified_by: Option<NewsAuthor>,
    pub published_at: i64,
    pub git_ref: String,
    pub deleted: bool,
    pub audience: Vec<String>,
}

/// News as a flat list.
pub struct NewsResponse {
    pub items: Vec<News>,
}

/// News grouped by audience, in the order the answer gave the groups.
pub struct NewsGroupedResponse {
    pub items: Vec<(String, Vec<News>)>,
}

/// Why a read of the API did not give a value.
#[derive(Debug, PartialEq, Eq, Structural, Clone, Copy)]
pub enum ApiError {
    /// The request did not reach the server or its answer was lost.
    Transport,
    /// The server answered with a status outside 200..=299.
    Status(u16),
    /// The body did not have the expected shape.
    Decode,
}

/// Whether an HTTP status reports success.
pub open spec fn is_success(status: u16) -> bool {
    200 <= status <= 299
}

/// The outcome of a read from the HTTP status and the decoded body, if the
/// body could be decoded: an unsuccessful status wins over the body.
pub fn classify<T>(status: u16, decoded: Option<T>) -> (r: Result<T, ApiError>)
    ensures
        !is_success(status) ==> r == Err::<T, ApiError>(ApiError::Status(status)),
        is_success(status) && decoded is None ==> r == Err::<T, ApiError>(ApiError::Decode),
        is_success(status) && decoded is Some ==> r == Ok::<T, ApiError>(decoded->0),
{
    if status < 200 || status > 299 {
        Err(ApiError::Status(status))
    } else {
        match decoded {
            Some(v) => Ok(v),
            None => Err(ApiError::Decode),
        }
    }
}

} // verus!
