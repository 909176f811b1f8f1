use vstd::prelude::*;
use vstd::string::*;

use crate::db::models::DbProcessingJob;
use crate::processor::compress::ProcessParams;
use crate::text::{signed_decimal, spec_signed_decimal};

verus! {

/// A request to create a processing job.
#[derive(Debug, Clone, PartialEq)]
pub struct CreateJobPayload {
    pub image_ids: Vec<i64>,
    pub operation: String,
    pub params: ProcessParams,
    pub output_mode: String,
    pub output_dir: Option<String>,
}

/// The id of a created job.
#[derive(Debug, Clone, Copy, PartialEq, Eq)]
pub struct CreateJobResponse {
    pub job_id: i64,
}

/// One page of jobs and the total number of jobs.
#[derive(Debug, Clone, PartialEq)]
pub struct PaginatedJobs {
    pub items: Vec<DbProcessingJob>,
    pub total: i64,
}

/// Paging of a job listing: page 0 by default, 20 jobs per page by default, at most 100.
pub fn job_page(page: Option<i64>, page_size: Option<i64>) -> (r: (i64, i64))
    ensures
        r.0 == page.unwrap_or(0),
        r.1 == if page_size.unwrap_or(20) > 100 {
            100
        } else {
            page_size.unwrap_or(20)
        },
{
    let p = match page {
        Some(p) => p,
        None => 0,
    };
    let s = match page_size {
        Some(s) => s,
        None => 20,
    };
    (p, if s > 100 {
        100
    } else {
        s
    })
}

/// The images a retry job takes: the failed images of the original job; a job
/// without failed images cannot be retried.
pub fn retry_image_ids(failed_ids: Vec<i64>) -> (r: Result<Vec<i64>, String>)
    ensures
        failed_ids@.len() == 0 ==> (r matches Err(e) && e@ == "no failed images to retry"@),
        failed_ids@.len() > 0 ==> (r matches Ok(ids) && ids@ == failed_ids@),
{
    if failed_ids.len() == 0 {
        Err(String::from_str("no failed images to retry"))
    } else {
        Ok(failed_ids)
    }
}

/// Message for a missing job.
pub fn job_not_found(job_id: i64) -> (r: String)
    ensures
        r@ == "job "@ + spec_signed_decimal(job_id as int) + " not found"@,
{
    let mut s = String::from_str("job ");
    s.append(signed_decimal(job_id).as_str());
    s.append(" not found");
    s
}

} // verus!
