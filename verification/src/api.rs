//! The value shapes of the JSON-facing surface: query parameters and
//! response envelopes. The HTTP front end itself lives outside the
//! library and converts to and from these.

use vstd::prelude::*;
use vstd::string::*;

verus! {

/// Parameters of the search operation.
pub struct SearchQuery {
    pub parser_code: String,
    pub keyword: String,
    pub page: u32,
    pub size: u32,
}

/// Parameters of the list-pictures operation.
pub struct AlbumQuery {
    pub parser_code: String,
    pub url: String,
}

/// Parameters of the picture proxy.
pub struct ForwardQuery {
    pub url: String,
}

/// The plain response envelope: a code (0 on success), a message, and
/// the payload.
pub struct CommonResponse<T> {
    pub code: i16,
    pub message: String,
    pub data: Option<T>,
}

impl<T> CommonResponse<T> {
    /// A success envelope around `data`.
    pub fn success(data: T) -> (r: CommonResponse<T>)
        ensures
            r.code == 0,
            r.message@ == "success"@,
            r.data == Some(data),
    {
        CommonResponse { code: 0, message: String::from_str("success"), data: Some(data) }
    }

    /// The generic internal-failure envelope, without payload.
    pub fn default_failure() -> (r: CommonResponse<T>)
        ensures
            r.code == -1,
            r.message@ == "系统内部错误"@,
            r.data is None,
    {
        CommonResponse {
            code: -1,
            message: String::from_str("系统内部错误"),
            data: None,
        }
    }

    /// A failure envelope with an explicit code, message and payload.
    pub fn failure(code: i16, message: String, data: T) -> (r: CommonResponse<T>)
        ensures
            r.code == code,
            r.message == message,
            r.data == Some(data),
    {
        CommonResponse { code, message, data: Some(data) }
    }
}

/// A page position: the current page and the known total.
pub struct Pagination {
    pub page: u32,
    pub page_total: u32,
}

impl Pagination {
    /// Builds a position from its two numbers.
    pub fn new(page: u32, page_total: u32) -> (r: Pagination)
        ensures
            r.page == page,
            r.page_total == page_total,
    {
        Pagination { page, page_total }
    }
}

/// The paginated response envelope: an envelope plus the page position.
pub struct PaginationResponse<T> {
    pub code: i16,
    pub message: String,
    pub data: Option<T>,
    pub page: u32,
    pub page_total: u32,
}

impl<T> PaginationResponse<T> {
    /// A success envelope around `data` at `pagination`.
    pub fn success(data: T, pagination: Pagination) -> (r: PaginationResponse<T>)
        ensures
            r.code == 0,
            r.message@ == "success"@,
            r.data == Some(data),
            r.page == pagination.page,
            r.page_total == pagination.page_total,
    {
        PaginationResponse {
            code: 0,
            message: String::from_str("success"),
            data: Some(data),
            page: pagination.page,
            page_total: pagination.page_total,
        }
    }

    /// A failure envelope with an explicit code, message and payload at
    /// `pagination`.
    pub fn failure(code: i16, message: String, data: T, pagination: Pagination) -> (r:
        PaginationResponse<T>)
        ensures
            r.code == code,
            r.message == message,
            r.data == Some(data),
            r.page == pagination.page,
            r.page_total == pagination.page_total,
    {
        PaginationResponse {
            code,
            message,
            data: Some(data),
            page: pagination.page,
            page_total: pagination.page_total,
        }
    }
}

} // verus!
