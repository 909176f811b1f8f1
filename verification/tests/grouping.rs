use gallery_organizer::db::models::DbImage;
use gallery_organizer::grouper::date_grouper::{group_type_of, plan_date_buckets, DateGranularity};
use gallery_organizer::grouper::rebuild_plan;
use gallery_organizer::grouper::size_grouper::plan_size_buckets;

fn dated(id: i64, taken_at: Option<i64>) -> DbImage {
    DbImage {
        id,
        file_path: format!("/p/{id}.jpg"),
        file_name: format!("{id}.jpg"),
        file_size_bytes: 1,
        width_px: None,
        height_px: None,
        format: None,
        taken_at,
        taken_at_source: "exif".to_string(),
        camera_make: None,
        camera_model: None,
        perceptual_hash: None,
        scanned_at: 0,
        updated_at: 0,
    }
}

fn labels_and_ids(images: &Vec<DbImage>, g: DateGranularity) -> Vec<(String, Vec<i64>)> {
    plan_date_buckets(images, g).into_iter().map(|b| (b.label, b.image_ids)).collect()
}

fn sample() -> Vec<DbImage> {
    vec![
        dated(1, Some(1614852000)), // 2021-03-04 10:00
        dated(2, Some(1614902399)), // 2021-03-04 23:59:59
        dated(3, Some(1614902400)), // 2021-03-05 00:00
        dated(4, None),
        dated(5, Some(1617278400)), // 2021-04-01
        dated(6, Some(1609416000)), // 2020-12-31
    ]
}

#[test]
fn day_buckets() {
    assert_eq!(
        labels_and_ids(&sample(), DateGranularity::Day),
        vec![
            ("2021-03-04".to_string(), vec![1, 2]),
            ("2021-03-05".to_string(), vec![3]),
            ("2021-04-01".to_string(), vec![5]),
            ("2020-12-31".to_string(), vec![6]),
        ]
    );
}

#[test]
fn month_buckets() {
    assert_eq!(
        labels_and_ids(&sample(), DateGranularity::Month),
        vec![
            ("2021-03".to_string(), vec![1, 2, 3]),
            ("2021-04".to_string(), vec![5]),
            ("2020-12".to_string(), vec![6]),
        ]
    );
}

#[test]
fn year_buckets() {
    assert_eq!(
        labels_and_ids(&sample(), DateGranularity::Year),
        vec![("2021".to_string(), vec![1, 2, 3, 5]), ("2020".to_string(), vec![6])]
    );
}

#[test]
fn undated_images_are_not_bucketed() {
    assert!(plan_date_buckets(&vec![dated(1, None)], DateGranularity::Day).is_empty());
}

#[test]
fn timestamps_before_the_epoch() {
    assert_eq!(labels_and_ids(&vec![dated(7, Some(-1))], DateGranularity::Day), vec![("1969-12-31".to_string(), vec![7])]);
}

#[test]
fn out_of_range_timestamp_counts_as_epoch() {
    assert_eq!(
        labels_and_ids(&vec![dated(8, Some(i64::MAX))], DateGranularity::Day),
        vec![("1970-01-01".to_string(), vec![8])]
    );
}

#[test]
fn distant_years_carry_a_sign() {
    // 10000-01-01T00:00:00Z and 0000-01-01 and -0001-01-01.
    assert_eq!(labels_and_ids(&vec![dated(9, Some(253402300800))], DateGranularity::Year), vec![("+10000".to_string(), vec![9])]);
    assert_eq!(labels_and_ids(&vec![dated(10, Some(-62167219200))], DateGranularity::Day), vec![("0000-01-01".to_string(), vec![10])]);
    assert_eq!(labels_and_ids(&vec![dated(11, Some(-62198755200))], DateGranularity::Year), vec![("-0001".to_string(), vec![11])]);
}

#[test]
fn bucket_keys() {
    let b = plan_date_buckets(&vec![dated(1, Some(1614852000))], DateGranularity::Month);
    assert_eq!((b[0].year, b[0].month, b[0].day), (2021, 3, 0));
}

#[test]
fn date_group_types() {
    assert_eq!(group_type_of(DateGranularity::Day), "date_day");
    assert_eq!(group_type_of(DateGranularity::Month), "date_month");
    assert_eq!(group_type_of(DateGranularity::Year), "date_year");
}

#[test]
fn size_buckets_skip_empty_tiers() {
    let mb = 1024 * 1024;
    let images = vec![(1, 0), (2, 3 * mb - 1), (3, 3 * mb), (4, 25 * mb), (5, -1), (6, 10 * mb)];
    let b: Vec<(String, Vec<i64>)> = plan_size_buckets(&images).into_iter().map(|b| (b.label, b.image_ids)).collect();
    assert_eq!(
        b,
        vec![
            ("0–3 MB".to_string(), vec![1, 2]),
            ("3–6 MB".to_string(), vec![3]),
            ("10–20 MB".to_string(), vec![6]),
            ("> 20 MB".to_string(), vec![4]),
        ]
    );
}

#[test]
fn largest_size_is_in_no_tier() {
    assert!(plan_size_buckets(&vec![(1, i64::MAX)]).is_empty());
}

#[test]
fn rebuild_plans() {
    let p = rebuild_plan("date");
    assert!(p.date && !p.duplicates);
    let p = rebuild_plan("duplicates");
    assert!(!p.date && p.duplicates);
    let p = rebuild_plan("all");
    assert!(p.date && p.duplicates);
    let p = rebuild_plan("size");
    assert!(!p.date && !p.duplicates);
}

#[test]
fn each_dated_image_is_in_exactly_one_bucket() {
    let images = sample();
    for g in [DateGranularity::Day, DateGranularity::Month, DateGranularity::Year] {
        let buckets = plan_date_buckets(&images, g);
        for img in &images {
            let count = buckets.iter().filter(|b| b.image_ids.contains(&img.id)).count();
            let expected = if img.taken_at.is_some() { 1 } else { 0 };
            assert_eq!(count, expected);
        }
    }
}

#[test]
fn each_size_is_in_exactly_one_tier() {
    let mb = 1024 * 1024;
    let sizes = [0, 1, 3 * mb - 1, 3 * mb, 6 * mb - 1, 6 * mb, 10 * mb, 20 * mb - 1, 20 * mb, i64::MAX - 1, i64::MAX, -5];
    let images: Vec<(i64, i64)> = sizes.iter().enumerate().map(|(i, s)| (i as i64, *s)).collect();
    let buckets = plan_size_buckets(&images);
    for (id, size) in &images {
        let count = buckets.iter().filter(|b| b.image_ids.contains(id)).count();
        let expected = if *size >= 0 && *size < i64::MAX { 1 } else { 0 };
        assert_eq!(count, expected);
    }
}

#[test]
fn day_buckets_nest_in_month_and_year_buckets() {
    let images = sample();
    let days = plan_date_buckets(&images, DateGranularity::Day);
    let months = plan_date_buckets(&images, DateGranularity::Month);
    let years = plan_date_buckets(&images, DateGranularity::Year);
    for d in &days {
        assert!(months.iter().any(|m| d.image_ids.iter().all(|id| m.image_ids.contains(id))));
        assert!(d.label.starts_with(&format!("{:04}-{:02}", d.year, d.month)));
    }
    for m in &months {
        assert!(years.iter().any(|y| m.image_ids.iter().all(|id| y.image_ids.contains(id))));
    }
}
