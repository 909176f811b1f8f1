use vstd::prelude::*;
use vstd::string::*;

use crate::processor::compress::{ProcessParams, ResizeMode};
use crate::processor::output::{
    output_file_name, output_file_name_of, output_path, path_file_name, path_join, spec_output_path,
    spec_path_file_name, spec_path_file_stem, spec_path_join, spec_path_parent, OutputMode,
};
use crate::text::text_eq;

verus! {

/// Params for the unified "process" job (replaces both "organize" and "compress").
/// All fields optional — omitting resize/format/quality = copy-only.
#[derive(Debug, Clone, PartialEq)]
pub struct ProcessJobParams {
    /// Sub-folder name to create inside output_dir (typically the group label).
    pub group_label: String,
    /// If true, delete source file after successful write.
    pub move_files: bool,
    /// Resize specification. Defaults to no resize.
    pub resize: ResizeMode,
    /// Target format: "jpeg" or "webp". Defaults to "jpeg".
    pub target_format: Option<String>,
    /// Encode quality 1–100. Defaults to 85.
    pub quality: Option<u8>,
}

/// Progress of a job, as reported to the user interface.
#[derive(Debug, Clone, PartialEq)]
pub struct JobProgressEvent {
    pub job_id: i64,
    pub processed: i64,
    pub total: i64,
    pub current_file: String,
    pub status: String,
}

/// The two kinds of job the runner knows.
#[derive(Debug, Clone, Copy, PartialEq, Eq)]
pub enum JobOperation {
    /// The unified copy/move/re-encode operation (`"process"`, or the older `"organize"`).
    Process,
    /// The older compress operation, for any other name.
    LegacyCompress,
}

/// Which kind of job an operation name denotes.
pub fn job_operation(operation: &str) -> (r: JobOperation)
    ensures
        r == if operation@ == "process"@ || operation@ == "organize"@ {
            JobOperation::Process
        } else {
            JobOperation::LegacyCompress
        },
{
    if text_eq(operation, "process") || text_eq(operation, "organize") {
        JobOperation::Process
    } else {
        JobOperation::LegacyCompress
    }
}

/// How a process job treats each image.
#[derive(Debug, Clone, Copy, PartialEq, Eq)]
pub enum ProcessStrategy {
    /// Re-encode and replace the source file.
    InPlace,
    /// Re-encode into the output folder.
    ReencodeToFolder,
    /// Copy (or move) the file unchanged into the output folder.
    CopyToFolder,
}

/// A process job re-encodes when it resizes, changes format or sets a quality.
pub open spec fn spec_needs_reencode(params: ProcessJobParams) -> bool {
    params.resize != ResizeMode::Unchanged || params.target_format is Some || params.quality is Some
}

/// How a process job with output mode `output_mode` treats each image: in place
/// for `"in_place"`; otherwise into the folder, re-encoded when the parameters ask
/// for it and copied otherwise.
pub fn process_strategy(output_mode: &str, params: &ProcessJobParams) -> (r: ProcessStrategy)
    ensures
        r == if output_mode@ == "in_place"@ {
            ProcessStrategy::InPlace
        } else if spec_needs_reencode(*params) {
            ProcessStrategy::ReencodeToFolder
        } else {
            ProcessStrategy::CopyToFolder
        },
{
    let reencode = match params.resize {
        ResizeMode::Unchanged => false,
        _ => true,
    } || params.target_format.is_some() || params.quality.is_some();
    if text_eq(output_mode, "in_place") {
        ProcessStrategy::InPlace
    } else if reencode {
        ProcessStrategy::ReencodeToFolder
    } else {
        ProcessStrategy::CopyToFolder
    }
}

/// The compress parameters a process job uses for every image: its quality,
/// format and resize, without the legacy fields.
pub fn compress_params_for(params: &ProcessJobParams) -> (r: ProcessParams)
    ensures
        r.quality == params.quality,
        r.width is None,
        r.height is None,
        r.fit is None,
        r.target_format == params.target_format,
        r.resize == params.resize,
{
    ProcessParams {
        quality: params.quality,
        width: None,
        height: None,
        fit: None,
        target_format: params.target_format.clone(),
        resize: params.resize,
    }
}

/// Folder a process job writes into: the group label under the job's output
/// folder (the current directory when it has none).
pub fn job_output_folder(output_dir: &Option<String>, group_label: &str) -> (r: String)
    ensures
        r@ == spec_path_join(
            match output_dir {
                Some(d) => d@,
                None => "."@,
            },
            group_label@,
        ),
{
    match output_dir {
        Some(d) => path_join(d.as_str(), group_label),
        None => path_join(".", group_label),
    }
}

/// Path a process job writes an image to: re-encoding in place writes the
/// source's stem with the new extension next to the source; re-encoding into the
/// folder writes that name into `dir`; copying keeps the source's file name (empty
/// when it has none) in `dir`.
pub open spec fn spec_job_destination(
    strategy: ProcessStrategy,
    source: Seq<char>,
    dir: Seq<char>,
    ext: Seq<char>,
) -> Seq<char> {
    match strategy {
        ProcessStrategy::InPlace => spec_output_path(source, ext, OutputMode::InPlace),
        ProcessStrategy::ReencodeToFolder => spec_path_join(dir, output_file_name(source, ext)),
        ProcessStrategy::CopyToFolder => spec_path_join(dir, spec_path_file_name(source).unwrap_or(Seq::empty())),
    }
}

/// The path a process job writes the image at `source` to.
pub fn job_destination(strategy: ProcessStrategy, source: &str, dir: &str, ext: &str) -> (r: String)
    ensures
        r@ == spec_job_destination(strategy, source@, dir@, ext@),
        strategy == ProcessStrategy::InPlace ==> r@ == spec_path_join(
            spec_path_parent(source@).unwrap_or("."@),
            spec_path_file_stem(source@).unwrap_or("image"@) + "."@ + ext@,
        ),
        strategy == ProcessStrategy::ReencodeToFolder ==> r@ == spec_path_join(
            dir@,
            spec_path_file_stem(source@).unwrap_or("image"@) + "."@ + ext@,
        ),
        strategy == ProcessStrategy::CopyToFolder ==> r@ == spec_path_join(
            dir@,
            spec_path_file_name(source@).unwrap_or(Seq::empty()),
        ),
{
    proof {
        crate::processor::output::lemma_output_folder_keeps_relative_folders(source@, ext@, OutputMode::InPlace);
    }
    match strategy {
        ProcessStrategy::InPlace => output_path(source, ext, &OutputMode::InPlace),
        ProcessStrategy::ReencodeToFolder => {
            let name = output_file_name_of(source, ext);
            path_join(dir, name.as_str())
        },
        ProcessStrategy::CopyToFolder => {
            let name = match path_file_name(source) {
                Some(n) => n,
                None => String::new(),
            };
            proof {
                assert(name@ == spec_path_file_name(source@).unwrap_or(Seq::empty()));
            }
            path_join(dir, name.as_str())
        },
    }
}

/// Size, pixel size and format of a re-encoded image.
#[derive(Debug, Clone, PartialEq)]
pub struct ImageMeta {
    pub file_size_bytes: i64,
    pub width_px: u32,
    pub height_px: u32,
    pub format: String,
}

/// What the database learns about an image after it was processed.
#[derive(Debug, Clone, PartialEq)]
pub enum ImageUpdate {
    /// The record stays as it is.
    Unchanged,
    /// The file moved, content unchanged.
    Path { new_path: String },
    /// The file moved and was re-encoded.
    Processed { new_path: String, meta: ImageMeta },
}

/// The record update after an image was written to `destination` (with `meta`
/// describing the written file): re-encoding in place or moving a re-encoded file
/// records the new path and metadata; moving an unchanged file records the new
/// path; copying leaves the record as it is.
pub fn update_after_success(
    strategy: ProcessStrategy,
    move_files: bool,
    destination: String,
    meta: ImageMeta,
) -> (r: ImageUpdate)
    ensures
        r == match strategy {
            ProcessStrategy::InPlace => ImageUpdate::Processed { new_path: destination, meta },
            ProcessStrategy::ReencodeToFolder => if move_files {
                ImageUpdate::Processed { new_path: destination, meta }
            } else {
                ImageUpdate::Unchanged
            },
            ProcessStrategy::CopyToFolder => if move_files {
                ImageUpdate::Path { new_path: destination }
            } else {
                ImageUpdate::Unchanged
            },
        },
{
    match strategy {
        ProcessStrategy::InPlace => ImageUpdate::Processed { new_path: destination, meta },
        ProcessStrategy::ReencodeToFolder => if move_files {
            ImageUpdate::Processed { new_path: destination, meta }
        } else {
            ImageUpdate::Unchanged
        },
        ProcessStrategy::CopyToFolder => if move_files {
            ImageUpdate::Path { new_path: destination }
        } else {
            ImageUpdate::Unchanged
        },
    }
}

/// Counts of the images of a job that are done and that failed.
#[derive(Debug, Clone, Copy, PartialEq, Eq)]
pub struct JobCounters {
    pub processed: i64,
    pub failed: i64,
}

impl JobCounters {
    /// No image counted yet.
    pub fn new() -> (c: Self)
        ensures
            c.processed == 0,
            c.failed == 0,
    {
        JobCounters { processed: 0, failed: 0 }
    }

    /// Counts one more image, done when `ok`, failed otherwise.
    pub fn record(&mut self, ok: bool)
        requires
            old(self).processed + old(self).failed < i64::MAX,
            old(self).processed >= 0,
            old(self).failed >= 0,
        ensures
            final(self).processed == old(self).processed + if ok { 1int } else { 0int },
            final(self).failed == old(self).failed + if ok { 0int } else { 1int },
    {
        if ok {
            self.processed = self.processed + 1;
        } else {
            self.failed = self.failed + 1;
        }
    }

    /// Number of images handled so far, as progress reports give it.
    pub fn handled(&self) -> (n: i64)
        requires
            self.processed + self.failed <= i64::MAX,
            self.processed >= 0,
            self.failed >= 0,
        ensures
            n == self.processed + self.failed,
    {
        self.processed + self.failed
    }
}

/// Final state of a job.
#[derive(Debug, Clone, Copy, PartialEq, Eq)]
pub enum JobStatus {
    Done,
    Failed,
    Cancelled,
}

/// A job ends cancelled when it was cancelled; failed when it had images and all
/// of them failed; done otherwise.
pub open spec fn spec_final_status(cancelled: bool, failed: i64, total: i64) -> JobStatus {
    if cancelled {
        JobStatus::Cancelled
    } else if failed > 0 && failed == total {
        JobStatus::Failed
    } else {
        JobStatus::Done
    }
}

/// The final state of a job.
pub fn final_status(cancelled: bool, failed: i64, total: i64) -> (s: JobStatus)
    ensures
        s == spec_final_status(cancelled, failed, total),
{
    if cancelled {
        JobStatus::Cancelled
    } else if failed > 0 && failed == total {
        JobStatus::Failed
    } else {
        JobStatus::Done
    }
}

/// Text under which a job status is stored.
pub open spec fn status_text(s: JobStatus) -> Seq<char> {
    match s {
        JobStatus::Done => "done"@,
        JobStatus::Failed => "failed"@,
        JobStatus::Cancelled => "cancelled"@,
    }
}

/// The stored text of a job status.
pub fn status_name(s: JobStatus) -> (r: String)
    ensures
        r@ == status_text(s),
{
    match s {
        JobStatus::Done => String::from_str("done"),
        JobStatus::Failed => String::from_str("failed"),
        JobStatus::Cancelled => String::from_str("cancelled"),
    }
}

/// Event that announces the end of a job: completion for a done job, failure otherwise.
pub fn final_event(s: JobStatus) -> (r: String)
    ensures
        r@ == if s == JobStatus::Done {
            "job:complete"@
        } else {
            "job:failed"@
        },
{
    match s {
        JobStatus::Done => String::from_str("job:complete"),
        _ => String::from_str("job:failed"),
    }
}

/// When every image of a job was counted once, a job that was not cancelled ends
/// failed exactly when it had images and none of them succeeded.
pub proof fn lemma_failed_iff_none_done(counters: JobCounters, total: i64)
    requires
        counters.processed >= 0,
        counters.failed >= 0,
        counters.processed + counters.failed == total,
    ensures
        (spec_final_status(false, counters.failed, total) == JobStatus::Failed) <==> (total > 0
            && counters.processed == 0),
{
}


/// Format name that a job hands to processing as the default: the job's target
/// format, or `"jpeg"` when it names none.
pub fn default_format_for(target_format: &Option<String>) -> (r: String)
    ensures
        r@ == match target_format {
            Some(f) => f@,
            None => "jpeg"@,
        },
{
    match target_format {
        Some(f) => f.clone(),
        None => String::from_str("jpeg"),
    }
}

/// Where an older compress job writes: in place for output mode `"in_place"`,
/// otherwise into the job's output folder (the current directory when it has
/// none), keeping each file's path from the file system root.
pub fn legacy_output_mode(output_mode: &str, output_dir: &Option<String>) -> (r: OutputMode)
    ensures
        output_mode@ == "in_place"@ ==> r == OutputMode::InPlace,
        output_mode@ != "in_place"@ ==> (r matches OutputMode::OutputFolder { dir, scan_root } && dir@ == match output_dir {
            Some(d) => d@,
            None => "."@,
        } && scan_root@ == "/"@),
{
    if text_eq(output_mode, "in_place") {
        OutputMode::InPlace
    } else {
        let dir = match output_dir {
            Some(d) => d.clone(),
            None => String::from_str("."),
        };
        OutputMode::OutputFolder { dir, scan_root: String::from_str("/") }
    }
}

} // verus!
