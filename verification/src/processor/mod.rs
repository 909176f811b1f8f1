pub mod compress;
pub mod job_runner;
pub mod output;
