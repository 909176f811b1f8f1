use gallery_organizer::commands::groups::{
    assemble_duplicate_clusters, check_process_payload, plan_process_group, summary_item, DuplicateClusterRow,
    ProcessGroupPayload,
};
use gallery_organizer::commands::images::{encode_image_data, image_not_found, image_query, mime_type, thumbnail_file_name};
use gallery_organizer::commands::jobs::{job_not_found, job_page, retry_image_ids};
use gallery_organizer::commands::maintenance::CleanupResult;
use gallery_organizer::commands::settings::reveal_folder;
use gallery_organizer::db::models::{DbGroup, DbImage};
use gallery_organizer::db::queries::{job_total, order_clause, page_offset, status_stamp, StatusStamp};
use gallery_organizer::processor::compress::ResizeMode;
use gallery_organizer::processor::job_runner::{
    compress_params_for, final_event, final_status, job_destination, job_operation, job_output_folder, process_strategy,
    status_name, update_after_success, ImageMeta, ImageUpdate, JobCounters, JobOperation, JobStatus,
    ProcessJobParams, ProcessStrategy,
};
use gallery_organizer::processor::output::{output_path, OutputMode};

fn img(id: i64) -> DbImage {
    DbImage {
        id,
        file_path: format!("/p/{id}.jpg"),
        file_name: format!("{id}.jpg"),
        file_size_bytes: 10 * id,
        width_px: Some(id),
        height_px: None,
        format: None,
        taken_at: None,
        taken_at_source: "none".to_string(),
        camera_make: None,
        camera_model: None,
        perceptual_hash: None,
        scanned_at: 0,
        updated_at: 0,
    }
}

fn job_params(resize: ResizeMode, fmt: Option<&str>, quality: Option<u8>, move_files: bool) -> ProcessJobParams {
    ProcessJobParams {
        group_label: "2021-03".to_string(),
        move_files,
        resize,
        target_format: fmt.map(|s| s.to_string()),
        quality,
    }
}

#[test]
fn job_operations() {
    assert_eq!(job_operation("process"), JobOperation::Process);
    assert_eq!(job_operation("organize"), JobOperation::Process);
    assert_eq!(job_operation("compress"), JobOperation::LegacyCompress);
}

#[test]
fn strategies() {
    let copy = job_params(ResizeMode::Unchanged, None, None, false);
    assert_eq!(process_strategy("in_place", &copy), ProcessStrategy::InPlace);
    assert_eq!(process_strategy("output_folder", &copy), ProcessStrategy::CopyToFolder);
    let q = job_params(ResizeMode::Unchanged, None, Some(80), false);
    assert_eq!(process_strategy("output_folder", &q), ProcessStrategy::ReencodeToFolder);
    let h = job_params(ResizeMode::Half, None, None, false);
    assert_eq!(process_strategy("output_folder", &h), ProcessStrategy::ReencodeToFolder);
    let f = job_params(ResizeMode::Unchanged, Some("webp"), None, false);
    assert_eq!(process_strategy("x", &f), ProcessStrategy::ReencodeToFolder);
}

#[test]
fn compress_params_drop_legacy_fields() {
    let p = compress_params_for(&job_params(ResizeMode::Half, Some("webp"), Some(70), true));
    assert_eq!(p.resize, ResizeMode::Half);
    assert_eq!(p.target_format, Some("webp".to_string()));
    assert_eq!(p.quality, Some(70));
    assert_eq!((p.width, p.height, p.fit), (None, None, None));
}

#[test]
fn output_folder_of_a_job() {
    assert_eq!(job_output_folder(&Some("/out".to_string()), "2021-03"), "/out/2021-03");
    assert_eq!(job_output_folder(&None, "g"), "./g");
}

fn meta() -> ImageMeta {
    ImageMeta { file_size_bytes: 5, width_px: 2, height_px: 3, format: "jpeg".to_string() }
}

#[test]
fn updates_after_success() {
    assert_eq!(
        update_after_success(ProcessStrategy::InPlace, false, "/a.jpeg".into(), meta()),
        ImageUpdate::Processed { new_path: "/a.jpeg".into(), meta: meta() }
    );
    assert_eq!(update_after_success(ProcessStrategy::ReencodeToFolder, false, "/a".into(), meta()), ImageUpdate::Unchanged);
    assert_eq!(
        update_after_success(ProcessStrategy::ReencodeToFolder, true, "/a".into(), meta()),
        ImageUpdate::Processed { new_path: "/a".into(), meta: meta() }
    );
    assert_eq!(
        update_after_success(ProcessStrategy::CopyToFolder, true, "/b".into(), meta()),
        ImageUpdate::Path { new_path: "/b".into() }
    );
    assert_eq!(update_after_success(ProcessStrategy::CopyToFolder, false, "/b".into(), meta()), ImageUpdate::Unchanged);
}

#[test]
fn counters_and_final_status() {
    let mut c = JobCounters::new();
    c.record(true);
    c.record(false);
    c.record(false);
    assert_eq!((c.processed, c.failed, c.handled()), (1, 2, 3));
    assert_eq!(final_status(false, c.failed, 3), JobStatus::Done);
    assert_eq!(final_status(false, 3, 3), JobStatus::Failed);
    assert_eq!(final_status(true, 3, 3), JobStatus::Cancelled);
    assert_eq!(final_status(false, 0, 0), JobStatus::Done);
    assert_eq!(status_name(JobStatus::Cancelled), "cancelled");
    assert_eq!(final_event(JobStatus::Done), "job:complete");
    assert_eq!(final_event(JobStatus::Failed), "job:failed");
    assert_eq!(final_event(JobStatus::Cancelled), "job:failed");
}

#[test]
fn output_paths() {
    assert_eq!(output_path("/photos/a/IMG_1.PNG", "jpeg", &OutputMode::InPlace), "/photos/a/IMG_1.jpeg");
    let folder = OutputMode::OutputFolder { dir: "/out".to_string(), scan_root: "/photos".to_string() };
    assert_eq!(output_path("/photos/a/IMG_1.PNG", "webp", &folder), "/out/a/IMG_1.webp");
    assert_eq!(output_path("/elsewhere/b/c.jpg", "jpeg", &folder), "/out/c.jpeg");
}

#[test]
fn duplicate_cluster_assembly() {
    let rows = vec![
        DuplicateClusterRow { group_id: 7, image: img(1), is_keeper: 0 },
        DuplicateClusterRow { group_id: 7, image: img(2), is_keeper: 1 },
        DuplicateClusterRow { group_id: 3, image: img(3), is_keeper: 0 },
        DuplicateClusterRow { group_id: 7, image: img(4), is_keeper: 0 },
        DuplicateClusterRow { group_id: 3, image: img(5), is_keeper: 0 },
    ];
    let clusters = assemble_duplicate_clusters(rows);
    assert_eq!(clusters.len(), 2);
    assert_eq!(clusters[0].cluster_id, 7);
    assert_eq!(clusters[0].images.iter().map(|i| i.id).collect::<Vec<_>>(), vec![1, 2, 4]);
    assert_eq!(clusters[0].suggested_keeper_id, Some(2));
    assert_eq!(clusters[1].cluster_id, 3);
    assert_eq!(clusters[1].images.iter().map(|i| i.id).collect::<Vec<_>>(), vec![3, 5]);
    assert_eq!(clusters[1].suggested_keeper_id, None);
    assert!(assemble_duplicate_clusters(Vec::new()).is_empty());
}

fn payload(mode: &str, dir: Option<&str>) -> ProcessGroupPayload {
    ProcessGroupPayload {
        output_mode: mode.to_string(),
        output_dir: dir.map(|d| d.to_string()),
        move_files: true,
        resize: ResizeMode::Half,
        target_format: Some("webp".to_string()),
        quality: Some(70),
    }
}

fn group(id: i64, label: &str) -> DbGroup {
    DbGroup { id, group_type: "date_day".into(), label: label.into(), created_at: 0, image_count: None, cover_image_id: None }
}

#[test]
fn process_group_validation() {
    assert_eq!(check_process_payload(&payload("folder", None)), Err("output_dir is required for folder mode".to_string()));
    assert_eq!(check_process_payload(&payload("folder", Some(""))), Err("output_dir is required for folder mode".to_string()));
    assert_eq!(check_process_payload(&payload("folder", Some("/o"))), Ok(()));
    assert_eq!(check_process_payload(&payload("overwrite", None)), Ok(()));
}

#[test]
fn process_group_plans() {
    let groups = vec![group(1, "a"), group(2, "2021-03-04")];
    assert_eq!(plan_process_group(&payload("folder", Some("/o")), &groups, 9, vec![1]).unwrap_err(), "group 9 not found");
    assert_eq!(plan_process_group(&payload("folder", Some("/o")), &groups, 2, vec![]).unwrap_err(), "group has no images");
    let plan = plan_process_group(&payload("folder", Some("/o")), &groups, 2, vec![5, 6]).unwrap();
    assert_eq!(plan.output_mode, "output_folder");
    assert_eq!(plan.output_dir, Some("/o".to_string()));
    assert_eq!(plan.image_ids, vec![5, 6]);
    assert_eq!(plan.params.group_label, "2021-03-04");
    assert!(plan.params.move_files);
    let plan = plan_process_group(&payload("overwrite", Some("/o")), &groups, 1, vec![5]).unwrap();
    assert_eq!(plan.output_mode, "in_place");
    assert_eq!(plan.output_dir, None);
}

#[test]
fn summaries() {
    let s = summary_item(&img(4));
    assert_eq!((s.image_id, s.file_name.as_str(), s.file_size_bytes, s.width_px, s.height_px), (4, "4.jpg", 40, Some(4), None));
}

#[test]
fn image_listing_parameters() {
    let q = image_query(None, None, None, None);
    assert_eq!((q.page, q.page_size, q.sort_by.as_str(), q.sort_dir.as_str()), (0, 50, "taken_at", "asc"));
    let q = image_query(Some(3), Some(500), Some("file_size".into()), Some("desc".into()));
    assert_eq!((q.page, q.page_size, q.sort_by.as_str(), q.sort_dir.as_str()), (3, 200, "file_size", "desc"));
    let q = image_query(None, Some(10), Some("drop table".into()), Some("sideways".into()));
    assert_eq!((q.page_size, q.sort_by.as_str(), q.sort_dir.as_str()), (10, "taken_at", "asc"));
    let q = image_query(None, None, Some("perceptual_hash".into()), None);
    assert_eq!(q.sort_by, "perceptual_hash");
}

#[test]
fn order_clauses() {
    assert_eq!(order_clause("file_name", "asc"), "file_name ASC");
    assert_eq!(order_clause("file_size", "desc"), "file_size_bytes DESC");
    assert_eq!(order_clause("taken_at", "desc"), "taken_at DESC");
    assert_eq!(order_clause("perceptual_hash", "desc"), "taken_at ASC");
    assert_eq!(page_offset(3, 50), 150);
}

#[test]
fn status_stamps() {
    assert_eq!(status_stamp("running"), StatusStamp::Started);
    assert_eq!(status_stamp("cancelled"), StatusStamp::Finished);
    assert_eq!(status_stamp("queued"), StatusStamp::Unstamped);
    assert_eq!(job_total(&vec![1, 2, 3]), 3);
}

#[test]
fn job_listing_and_retry() {
    assert_eq!(job_page(None, None), (0, 20));
    assert_eq!(job_page(Some(2), Some(1000)), (2, 100));
    assert_eq!(retry_image_ids(vec![]), Err("no failed images to retry".to_string()));
    assert_eq!(retry_image_ids(vec![4, 5]), Ok(vec![4, 5]));
    assert_eq!(job_not_found(-3), "job -3 not found");
}

#[test]
fn image_helpers() {
    assert_eq!(mime_type(&Some("PNG".into())), "image/jpeg");
    assert_eq!(mime_type(&Some("png".into())), "image/png");
    assert_eq!(mime_type(&Some("heif".into())), "image/heic");
    assert_eq!(mime_type(&Some("tif".into())), "image/tiff");
    assert_eq!(mime_type(&None), "image/jpeg");
    assert_eq!(thumbnail_file_name(42), "42.jpg");
    assert_eq!(thumbnail_file_name(i64::MIN), "-9223372036854775808.jpg");
    assert_eq!(image_not_found(7), "image 7 not found");
}

#[test]
fn cleanup_tally() {
    let mut r = CleanupResult::new(3);
    r.record_removed();
    r.record_thumbnail_removed();
    r.record_thumbnail_error(5, "denied");
    r.record_image_error(6, "/x.jpg", "locked");
    assert_eq!((r.checked, r.removed, r.thumbnails_removed), (3, 1, 1));
    assert_eq!(r.errors, vec!["thumbnail 5: denied".to_string(), "image 6 (/x.jpg): locked".to_string()]);
}

#[test]
fn job_destinations() {
    assert_eq!(job_destination(ProcessStrategy::InPlace, "/a/b/photo.png", "/ignored", "jpeg"), "/a/b/photo.jpeg");
    assert_eq!(job_destination(ProcessStrategy::ReencodeToFolder, "/a/b/photo.png", "/out/Trip", "webp"), "/out/Trip/photo.webp");
    assert_eq!(job_destination(ProcessStrategy::CopyToFolder, "/a/b/photo.png", "/out/Trip", ""), "/out/Trip/photo.png");
    assert_eq!(job_destination(ProcessStrategy::ReencodeToFolder, "/", "/out", "jpeg"), "/out/image.jpeg");
    assert_eq!(job_destination(ProcessStrategy::CopyToFolder, "/", "/out", ""), "/out/");
}

#[test]
fn image_data_is_sent_as_standard_base64() {
    assert_eq!(encode_image_data(b""), "");
    assert_eq!(encode_image_data(b"f"), "Zg==");
    assert_eq!(encode_image_data(b"fo"), "Zm8=");
    assert_eq!(encode_image_data(b"foo"), "Zm9v");
    assert_eq!(encode_image_data(b"foobar"), "Zm9vYmFy");
    assert_eq!(encode_image_data(&[0xff, 0xfe, 0x3e]), "//4+");
    assert_eq!(encode_image_data(&[0xff, 0xd8, 0xff, 0xe0]), "/9j/4A==");
}

#[test]
fn revealed_folders() {
    assert_eq!(reveal_folder("/photos/2021/a.jpg"), "/photos/2021");
    assert_eq!(reveal_folder("a.jpg"), "");
    assert_eq!(reveal_folder("/"), "/");
}
