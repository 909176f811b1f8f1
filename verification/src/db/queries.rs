use vstd::prelude::*;
use vstd::string::*;

use crate::text::text_eq;

verus! {

/// SQL ordering of an image listing for a sort key and direction; unknown
/// combinations order by capture time ascending.
pub open spec fn spec_order_clause(sort_by: Seq<char>, sort_dir: Seq<char>) -> Seq<char> {
    if sort_by == "file_name"@ && sort_dir == "asc"@ {
        "file_name ASC"@
    } else if sort_by == "file_name"@ && sort_dir == "desc"@ {
        "file_name DESC"@
    } else if sort_by == "file_size"@ && sort_dir == "asc"@ {
        "file_size_bytes ASC"@
    } else if sort_by == "file_size"@ && sort_dir == "desc"@ {
        "file_size_bytes DESC"@
    } else if sort_by == "taken_at"@ && sort_dir == "desc"@ {
        "taken_at DESC"@
    } else {
        "taken_at ASC"@
    }
}

/// The SQL ordering of an image listing.
pub fn order_clause(sort_by: &str, sort_dir: &str) -> (r: String)
    ensures
        r@ == spec_order_clause(sort_by@, sort_dir@),
{
    let asc = text_eq(sort_dir, "asc");
    let desc = text_eq(sort_dir, "desc");
    if text_eq(sort_by, "file_name") && asc {
        String::from_str("file_name ASC")
    } else if text_eq(sort_by, "file_name") && desc {
        String::from_str("file_name DESC")
    } else if text_eq(sort_by, "file_size") && asc {
        String::from_str("file_size_bytes ASC")
    } else if text_eq(sort_by, "file_size") && desc {
        String::from_str("file_size_bytes DESC")
    } else if text_eq(sort_by, "taken_at") && desc {
        String::from_str("taken_at DESC")
    } else {
        String::from_str("taken_at ASC")
    }
}

/// Offset of the first row of page `page` with `page_size` rows per page.
pub fn page_offset(page: i64, page_size: i64) -> (r: i64)
    requires
        i64::MIN <= page * page_size <= i64::MAX,
    ensures
        r == page * page_size,
{
    page * page_size
}

/// Which time stamp a job status change records.
#[derive(Debug, Clone, Copy, PartialEq, Eq)]
pub enum StatusStamp {
    /// The job started.
    Started,
    /// The job finished.
    Finished,
    /// No time is recorded.
    Unstamped,
}

/// `"running"` records the start time; `"done"`, `"failed"` and `"cancelled"`
/// record the finish time; other statuses record no time.
pub fn status_stamp(status: &str) -> (r: StatusStamp)
    ensures
        r == if status@ == "running"@ {
            StatusStamp::Started
        } else if status@ == "done"@ || status@ == "failed"@ || status@ == "cancelled"@ {
            StatusStamp::Finished
        } else {
            StatusStamp::Unstamped
        },
{
    if text_eq(status, "running") {
        StatusStamp::Started
    } else if text_eq(status, "done") || text_eq(status, "failed") || text_eq(status, "cancelled") {
        StatusStamp::Finished
    } else {
        StatusStamp::Unstamped
    }
}

/// Number of images a new job holds.
pub fn job_total(image_ids: &Vec<i64>) -> (r: i64)
    requires
        image_ids@.len() <= i64::MAX,
    ensures
        r == image_ids@.len(),
{
    image_ids.len() as i64
}

} // verus!
