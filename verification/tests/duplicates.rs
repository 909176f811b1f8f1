use gallery_organizer::db::models::DbImage;
use gallery_organizer::grouper::dupe_grouper::{cluster_indices, keeper_position, plan_rebuild};

fn image(id: i64, hash: Option<&str>, w: Option<i64>, h: Option<i64>) -> DbImage {
    DbImage {
        id,
        file_path: format!("/photos/{id}.jpg"),
        file_name: format!("{id}.jpg"),
        file_size_bytes: 1000,
        width_px: w,
        height_px: h,
        format: Some("jpg".to_string()),
        taken_at: None,
        taken_at_source: "none".to_string(),
        camera_make: None,
        camera_model: None,
        perceptual_hash: hash.map(|s| s.to_string()),
        scanned_at: 0,
        updated_at: 0,
    }
}

fn strings(v: &[&str]) -> Vec<String> {
    v.iter().map(|s| s.to_string()).collect()
}

#[test]
fn near_hashes_form_a_cluster() {
    let hashes = strings(&["0000", "0001", "ffff"]);
    assert_eq!(cluster_indices(&hashes, 1), vec![vec![0, 1]]);
}

#[test]
fn clusters_join_transitively() {
    // 0 ~ 1 (1 bit), 1 ~ 2 (1 bit), but 0 and 2 differ in 2 bits.
    let hashes = strings(&["00", "01", "03", "f0"]);
    assert_eq!(cluster_indices(&hashes, 1), vec![vec![0, 1, 2]]);
}

#[test]
fn singletons_are_not_clusters() {
    let hashes = strings(&["00", "ff", "0f"]);
    assert!(cluster_indices(&hashes, 0).is_empty());
}

#[test]
fn clusters_come_in_order_of_first_member() {
    let hashes = strings(&["ff", "00", "fe", "01", "88"]);
    assert_eq!(cluster_indices(&hashes, 1), vec![vec![0, 2], vec![1, 3]]);
}

#[test]
fn invalid_hashes_never_match_anything() {
    let hashes = strings(&["zz", "zz", "00"]);
    assert!(cluster_indices(&hashes, 64).is_empty());
}

#[test]
fn no_images_no_clusters() {
    assert!(cluster_indices(&Vec::new(), 8).is_empty());
}

#[test]
fn keeper_is_last_of_greatest_resolution() {
    let images = vec![
        image(1, None, Some(10), Some(10)),
        image(2, None, Some(20), Some(5)),
        image(3, None, Some(5), Some(5)),
        image(4, None, None, Some(100)),
    ];
    assert_eq!(keeper_position(&images, &vec![0, 1, 2, 3]), 1);
    assert_eq!(keeper_position(&images, &vec![2, 3]), 0);
}

#[test]
fn rebuild_plan_labels_and_keepers() {
    let images = vec![
        image(10, Some("0000"), Some(100), Some(100)),
        image(11, Some("ffff"), Some(10), Some(10)),
        image(12, Some("0001"), Some(200), Some(100)),
        image(13, Some("fffe"), None, None),
        image(14, Some("5555"), Some(1), Some(1)),
    ];
    let plans = plan_rebuild(&images, 2);
    assert_eq!(plans.len(), 2);
    assert_eq!(plans[0].label, "Duplicate Cluster #1");
    assert_eq!(plans[0].image_ids, vec![10, 12]);
    assert_eq!(plans[0].keeper_id, 12);
    assert_eq!(plans[1].label, "Duplicate Cluster #2");
    assert_eq!(plans[1].image_ids, vec![11, 13]);
    assert_eq!(plans[1].keeper_id, 11);
}

#[test]
fn images_without_hash_match_each_other() {
    // A missing hash is compared as the empty text, which decodes to no bytes.
    let images = vec![image(1, None, None, None), image(2, None, None, None), image(3, Some("00"), None, None)];
    let plans = plan_rebuild(&images, 0);
    assert_eq!(plans.len(), 1);
    assert_eq!(plans[0].image_ids, vec![1, 2]);
    assert_eq!(plans[0].keeper_id, 2);
}

#[test]
fn clusters_never_share_an_image() {
    let hashes = strings(&["00", "01", "ff", "fe", "03", "7f"]);
    let clusters = cluster_indices(&hashes, 1);
    assert_eq!(clusters, vec![vec![0, 1, 4], vec![2, 3, 5]]);
    let mut seen = vec![false; hashes.len()];
    for c in &clusters {
        for &i in c {
            assert!(!seen[i]);
            seen[i] = true;
        }
    }
}

#[test]
fn clustering_is_determined_by_the_hashes() {
    let hashes = strings(&["a0", "a1", "0f", "a3", "1f", "55"]);
    let first = cluster_indices(&hashes, 1);
    assert_eq!(first, vec![vec![0, 1, 3], vec![2, 4]]);
    assert_eq!(cluster_indices(&hashes.clone(), 1), first);
}

#[test]
fn a_larger_distance_only_merges_clusters() {
    let hashes = strings(&["00", "01", "03", "f0", "f1", "ff", "0f"]);
    let narrow = cluster_indices(&hashes, 1);
    let wide = cluster_indices(&hashes, 2);
    assert_eq!(narrow, vec![vec![0, 1, 2], vec![3, 4]]);
    for c in &narrow {
        assert!(wide.iter().any(|w| c.iter().all(|i| w.contains(i))));
    }
}
