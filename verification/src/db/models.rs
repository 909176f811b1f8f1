use vstd::prelude::*;

verus! {

/// A scanned image as stored in the library database.
#[derive(Debug, Clone, PartialEq)]
pub struct DbImage {
    pub id: i64,
    pub file_path: String,
    pub file_name: String,
    pub file_size_bytes: i64,
    pub width_px: Option<i64>,
    pub height_px: Option<i64>,
    pub format: Option<String>,
    pub taken_at: Option<i64>,
    pub taken_at_source: String,
    pub camera_make: Option<String>,
    pub camera_model: Option<String>,
    pub perceptual_hash: Option<String>,
    pub scanned_at: i64,
    pub updated_at: i64,
}

/// An image found by a scan, before it is written to the database.
#[derive(Debug, Clone, PartialEq)]
pub struct NewImage {
    pub file_path: String,
    pub file_name: String,
    pub file_size_bytes: i64,
    pub width_px: Option<i64>,
    pub height_px: Option<i64>,
    pub format: Option<String>,
    pub taken_at: Option<i64>,
    pub taken_at_source: String,
    pub camera_make: Option<String>,
    pub camera_model: Option<String>,
    pub perceptual_hash: Option<String>,
}

/// A group of images with its member count and cover image.
#[derive(Debug, Clone, PartialEq)]
pub struct DbGroup {
    pub id: i64,
    pub group_type: String,
    pub label: String,
    pub created_at: i64,
    pub image_count: Option<i64>,
    pub cover_image_id: Option<i64>,
}

/// A batch-processing job.
#[derive(Debug, Clone, PartialEq)]
pub struct DbProcessingJob {
    pub id: i64,
    pub status: String,
    pub operation: String,
    pub params_json: String,
    pub output_mode: String,
    pub output_dir: Option<String>,
    pub total_images: i64,
    pub processed_count: i64,
    pub failed_count: i64,
    pub error_message: Option<String>,
    pub created_at: i64,
    pub started_at: Option<i64>,
    pub finished_at: Option<i64>,
}

/// The state of one image within a job.
#[derive(Debug, Clone, PartialEq)]
pub struct DbJobImage {
    pub job_id: i64,
    pub image_id: i64,
    pub status: String,
    pub error: Option<String>,
}

/// Membership of an image in a group.
#[derive(Debug, Clone, PartialEq)]
pub struct DbGroupMember {
    pub group_id: i64,
    pub image_id: i64,
    pub is_keeper: i64,
}

} // verus!
