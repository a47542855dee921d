//! Pagination of list operations.
//!
//! Requests carry a 1-based page number and a page size; responses echo them
//! together with the total number of matching elements.

use vstd::prelude::*;

use crate::errors::{Code, Status};

verus! {

/// A 1-based page request.
#[derive(Clone, Copy, Debug, PartialEq, Eq, Structural)]
pub struct PaginationRequest {
    pub page: u32,
    pub size: u32,
}

/// The pagination echoed on a list response.
#[derive(Clone, Copy, Debug, PartialEq, Eq, Structural)]
pub struct PaginationResponse {
    pub page: u32,
    pub size: u32,
    pub total_elements: u32,
}

/// Default page size used when a request carries no pagination.
pub const DEFAULT_PAGE_SIZE: u32 = 10;

/// Returns the query limit and offset for a pagination request, together
/// with the response skeleton echoing the effective page and size.
///
/// Without a request the first page of [`DEFAULT_PAGE_SIZE`] elements is
/// selected.  A page number below 1 is rejected with `InvalidArgument`;
/// otherwise the limit is the page size and the offset skips the earlier
/// pages.
pub fn get_limit_offset_from_pagination(request: Option<PaginationRequest>) -> (r: Result<
    (u64, u64, PaginationResponse),
    Status,
>)
    ensures
        match r {
            Ok((limit, offset, pagination)) => {
                match request {
                    Some(req) => {
                        &&& req.page >= 1
                        &&& limit == req.size
                        &&& offset == (req.page - 1) as u64 * req.size as u64
                        &&& pagination == (PaginationResponse {
                            page: req.page,
                            size: req.size,
                            total_elements: 0,
                        })
                    },
                    None => {
                        &&& limit == DEFAULT_PAGE_SIZE
                        &&& offset == 0
                        &&& pagination == (PaginationResponse {
                            page: 1,
                            size: DEFAULT_PAGE_SIZE,
                            total_elements: 0,
                        })
                    },
                }
            },
            Err(status) => request matches Some(req) && req.page < 1 && status.code
                == Code::InvalidArgument && status.message@ == "pagination.page less than 1"@,
        },
{
    match request {
        Some(req) => {
            if req.page < 1 {
                Err(Status::invalid_argument("pagination.page less than 1"))
            } else {
                let limit: u64 = req.size as u64;
                let skipped_pages: u64 = (req.page - 1) as u64;
                proof {
                    assert(skipped_pages * limit <= 0xffffffffu64 * 0xffffffffu64)
                        by (nonlinear_arith)
                        requires
                            skipped_pages <= 0xffffffffu64,
                            limit <= 0xffffffffu64,
                    ;
                }
                let offset: u64 = skipped_pages * limit;
                Ok(
                    (
                        limit,
                        offset,
                        PaginationResponse { page: req.page, size: req.size, total_elements: 0 },
                    ),
                )
            }
        },
        None => Ok(
            (
                DEFAULT_PAGE_SIZE as u64,
                0,
                PaginationResponse { page: 1, size: DEFAULT_PAGE_SIZE, total_elements: 0 },
            ),
        ),
    }
}

/// Checked narrowing of a row count to the `u32` carried in responses.
/// Fails with `Internal` exactly when the count is negative or too large.
pub fn i64_to_u32(n: i64) -> (r: Result<u32, Status>)
    ensures
        match r {
            Ok(v) => 0 <= n <= u32::MAX && v == n,
            Err(status) => (n < 0 || n > u32::MAX) && status.code == Code::Internal,
        },
{
    if n >= 0 && n <= u32::MAX as i64 {
        Ok(n as u32)
    } else {
        Err(Status { code: Code::Internal, message: String::new() })
    }
}

} // verus!
