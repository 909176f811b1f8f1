use chrono::{DateTime, Datelike, Utc};
use vstd::prelude::*;
use vstd::string::*;

use crate::db::models::DbImage;
use crate::text::{spec_zero_padded, zero_padded};

verus! {

/// Calendar date (year, month, day) in UTC of a Unix timestamp in seconds, as
/// chrono computes it; a timestamp outside chrono's range counts as the Unix epoch.
pub uninterp spec fn utc_calendar_date(ts: i64) -> (i32, u32, u32);

/// Calls `DateTime::<Utc>::from_timestamp(ts, 0)`, falls back to the default
/// (the Unix epoch) when it is out of range, and reads year, month and day.
/// chrono keeps months in 1..=12, days in 1..=31 and years within ±262143.
#[verifier::external_body]
fn calendar_date(ts: i64) -> (r: (i32, u32, u32))
    ensures
        r == utc_calendar_date(ts),
        1 <= r.1 <= 12,
        1 <= r.2 <= 31,
        -262143 <= r.0 <= 262142,
{
    let dt = DateTime::<Utc>::from_timestamp(ts, 0).unwrap_or_default().naive_utc();
    (dt.year(), dt.month(), dt.day())
}

/// How finely images are bucketed by date.
#[derive(Debug, Clone, Copy, PartialEq, Eq)]
pub enum DateGranularity {
    Day,
    Month,
    Year,
}

/// The part of a calendar date that a granularity keeps; dropped parts are zero.
pub open spec fn date_key(date: (i32, u32, u32), g: DateGranularity) -> (i32, u32, u32) {
    match g {
        DateGranularity::Day => date,
        DateGranularity::Month => (date.0, date.1, 0),
        DateGranularity::Year => (date.0, 0, 0),
    }
}

/// Bucket key of an image, `None` when it has no capture time.
pub open spec fn image_key(img: DbImage, g: DateGranularity) -> Option<(i32, u32, u32)> {
    match img.taken_at {
        Some(ts) => Some(date_key(utc_calendar_date(ts), g)),
        None => None,
    }
}

/// Ids of the images with bucket key `key`, in list order.
pub open spec fn ids_with_key(images: Seq<DbImage>, g: DateGranularity, key: (i32, u32, u32)) -> Seq<i64>
    decreases images.len(),
{
    if images.len() == 0 {
        Seq::empty()
    } else {
        let rest = ids_with_key(images.drop_last(), g, key);
        if image_key(images.last(), g) == Some(key) {
            rest.push(images.last().id)
        } else {
            rest
        }
    }
}

/// chrono's `%Y`: four digits, zero padded, for years 0..=9999; otherwise an
/// explicit sign followed by at least four digits.
pub open spec fn year_text(y: int) -> Seq<char> {
    if 0 <= y <= 9999 {
        spec_zero_padded(y as nat, 4)
    } else if y < 0 {
        seq!['-'] + spec_zero_padded((-y) as nat, 4)
    } else {
        seq!['+'] + spec_zero_padded(y as nat, 4)
    }
}

/// Label of a bucket: `%Y-%m-%d`, `%Y-%m` or `%Y`.
pub open spec fn date_label(key: (i32, u32, u32), g: DateGranularity) -> Seq<char> {
    match g {
        DateGranularity::Year => year_text(key.0 as int),
        DateGranularity::Month => year_text(key.0 as int) + seq!['-'] + spec_zero_padded(key.1 as nat, 2),
        DateGranularity::Day => year_text(key.0 as int) + seq!['-'] + spec_zero_padded(key.1 as nat, 2)
            + seq!['-'] + spec_zero_padded(key.2 as nat, 2),
    }
}

/// Group type under which buckets of a granularity are stored.
pub open spec fn date_group_type(g: DateGranularity) -> Seq<char> {
    match g {
        DateGranularity::Day => "date_day"@,
        DateGranularity::Month => "date_month"@,
        DateGranularity::Year => "date_year"@,
    }
}

/// One date group to store.
#[derive(Debug, Clone, PartialEq)]
pub struct DateBucket {
    pub year: i32,
    pub month: u32,
    pub day: u32,
    pub label: String,
    pub image_ids: Vec<i64>,
}

/// The key of a bucket.
pub open spec fn bucket_key(b: DateBucket) -> (i32, u32, u32) {
    (b.year, b.month, b.day)
}

/// Position of the first image with bucket key `key`, or the number of images
/// when there is none.
pub open spec fn first_with_key(images: Seq<DbImage>, g: DateGranularity, key: (i32, u32, u32)) -> int
    decreases images.len(),
{
    if images.len() == 0 {
        0
    } else {
        let f = first_with_key(images.drop_last(), g, key);
        if f < images.len() - 1 {
            f
        } else if image_key(images.last(), g) == Some(key) {
            images.len() - 1
        } else {
            images.len() as int
        }
    }
}

/// `buckets` groups the dated images by key: one bucket per key that occurs, in
/// order of the key's first occurrence, each holding the ids of its images in list
/// order and labelled with its date text.
pub open spec fn is_date_bucketing(images: Seq<DbImage>, g: DateGranularity, buckets: Seq<DateBucket>) -> bool {
    &&& forall|b: int| 0 <= b < buckets.len() ==> (#[trigger] buckets[b]).image_ids@ == ids_with_key(
        images,
        g,
        bucket_key(buckets[b]),
    )
    &&& forall|b: int| 0 <= b < buckets.len() ==> (#[trigger] buckets[b]).label@ == date_label(bucket_key(buckets[b]), g)
    &&& forall|b: int| 0 <= b < buckets.len() ==> first_with_key(images, g, bucket_key(#[trigger] buckets[b])) < images.len()
    &&& forall|i: int| 0 <= i < images.len() && (#[trigger] image_key(images[i], g)) is Some ==> exists|b: int|
        0 <= b < buckets.len() && Some(bucket_key(#[trigger] buckets[b])) == image_key(images[i], g)
    &&& forall|b: int, c: int| 0 <= b < c < buckets.len() ==> first_with_key(images, g, bucket_key(#[trigger] buckets[b]))
        < first_with_key(images, g, bucket_key(#[trigger] buckets[c]))
}

proof fn lemma_first_with_key(images: Seq<DbImage>, g: DateGranularity, key: (i32, u32, u32))
    ensures
        0 <= first_with_key(images, g, key) <= images.len(),
        first_with_key(images, g, key) < images.len() ==> image_key(images[first_with_key(images, g, key)], g) == Some(key),
        forall|j: int| 0 <= j < first_with_key(images, g, key) ==> image_key(#[trigger] images[j], g) != Some(key),
    decreases images.len(),
{
    if images.len() > 0 {
        lemma_first_with_key(images.drop_last(), g, key);
        let d = images.drop_last();
        assert forall|j: int| 0 <= j < d.len() implies d[j] == images[j] by {}
    }
}

proof fn lemma_first_step(images: Seq<DbImage>, i: int, g: DateGranularity, key: (i32, u32, u32))
    requires
        0 <= i < images.len(),
    ensures
        first_with_key(images.subrange(0, i + 1), g, key) == if first_with_key(images.subrange(0, i), g, key) < i {
            first_with_key(images.subrange(0, i), g, key)
        } else if image_key(images[i], g) == Some(key) {
            i
        } else {
            i + 1
        },
{
    assert(images.subrange(0, i + 1).drop_last() =~= images.subrange(0, i));
    lemma_first_with_key(images.subrange(0, i), g, key);
}

/// chrono's `%Y` text of a year.
fn year_text_of(y: i32) -> (s: String)
    requires
        -262143 <= y <= 262142,
    ensures
        s@ == year_text(y as int),
{
    if 0 <= y && y <= 9999 {
        zero_padded(y as u64, 4)
    } else if y < 0 {
        proof {
            reveal_strlit("-");
        }
        let mut s = String::from_str("-");
        let digits = zero_padded((-(y as i64)) as u64, 4);
        s.append(digits.as_str());
        s
    } else {
        proof {
            reveal_strlit("+");
        }
        let mut s = String::from_str("+");
        let digits = zero_padded(y as u64, 4);
        s.append(digits.as_str());
        s
    }
}

/// Label of the bucket with key `key`.
fn date_label_of(key: (i32, u32, u32), g: DateGranularity) -> (s: String)
    requires
        -262143 <= key.0 <= 262142,
    ensures
        s@ == date_label(key, g),
{
    proof {
        reveal_strlit("-");
    }
    let mut s = year_text_of(key.0);
    match g {
        DateGranularity::Year => {},
        DateGranularity::Month => {
            s.append("-");
            s.append(zero_padded(key.1 as u64, 2).as_str());
        },
        DateGranularity::Day => {
            s.append("-");
            s.append(zero_padded(key.1 as u64, 2).as_str());
            s.append("-");
            s.append(zero_padded(key.2 as u64, 2).as_str());
        },
    }
    s
}

/// Group type under which buckets of a granularity are stored.
pub fn group_type_of(g: DateGranularity) -> (s: String)
    ensures
        s@ == date_group_type(g),
{
    match g {
        DateGranularity::Day => String::from_str("date_day"),
        DateGranularity::Month => String::from_str("date_month"),
        DateGranularity::Year => String::from_str("date_year"),
    }
}

proof fn lemma_ids_step(images: Seq<DbImage>, i: int, g: DateGranularity, key: (i32, u32, u32))
    requires
        0 <= i < images.len(),
    ensures
        ids_with_key(images.subrange(0, i + 1), g, key) == if image_key(images[i], g) == Some(key) {
            ids_with_key(images.subrange(0, i), g, key).push(images[i].id)
        } else {
            ids_with_key(images.subrange(0, i), g, key)
        },
{
    assert(images.subrange(0, i + 1).drop_last() =~= images.subrange(0, i));
}

/// Position of the bucket with key `key`, if any.
fn find_bucket(buckets: &Vec<DateBucket>, key: (i32, u32, u32)) -> (r: Option<usize>)
    ensures
        r matches Some(b) ==> b < buckets@.len() && bucket_key(buckets@[b as int]) == key,
        r is None ==> forall|b: int| 0 <= b < buckets@.len() ==> bucket_key(#[trigger] buckets@[b]) != key,
{
    let mut b: usize = 0;
    while b < buckets.len()
        invariant
            b <= buckets@.len(),
            forall|c: int| 0 <= c < b ==> bucket_key(#[trigger] buckets@[c]) != key,
        decreases buckets@.len() - b,
    {
        if buckets[b].year == key.0 && buckets[b].month == key.1 && buckets[b].day == key.2 {
            return Some(b);
        }
        b = b + 1;
    }
    None
}

/// Images `0..=i` are bucketed when image `i` has no capture time and `0..i` were.
proof fn lemma_step_undated(images: Seq<DbImage>, i: int, g: DateGranularity, buckets: Seq<DateBucket>)
    requires
        0 <= i < images.len(),
        image_key(images[i], g) is None,
        is_date_bucketing(images.subrange(0, i), g, buckets),
    ensures
        is_date_bucketing(images.subrange(0, i + 1), g, buckets),
{
    let prefix = images.subrange(0, i);
    let next = images.subrange(0, i + 1);
    assert forall|b: int| 0 <= b < buckets.len() implies {
        &&& (#[trigger] buckets[b]).image_ids@ == ids_with_key(next, g, bucket_key(buckets[b]))
        &&& first_with_key(next, g, bucket_key(buckets[b])) == first_with_key(prefix, g, bucket_key(buckets[b]))
    } by {
        lemma_ids_step(images, i, g, bucket_key(buckets[b]));
        lemma_first_step(images, i, g, bucket_key(buckets[b]));
    }
    assert forall|j: int| 0 <= j < next.len() && (#[trigger] image_key(next[j], g)) is Some implies exists|b: int|
        0 <= b < buckets.len() && Some(bucket_key(#[trigger] buckets[b])) == image_key(next[j], g) by {
        assert(next[j] == prefix[j]);
        assert(image_key(prefix[j], g) is Some);
    }
}

/// Images `0..=i` are bucketed when image `i` joins the existing bucket `b`.
proof fn lemma_step_existing(
    images: Seq<DbImage>,
    i: int,
    g: DateGranularity,
    before: Seq<DateBucket>,
    after: Seq<DateBucket>,
    b: int,
)
    requires
        0 <= i < images.len(),
        0 <= b < before.len(),
        image_key(images[i], g) == Some(bucket_key(before[b])),
        is_date_bucketing(images.subrange(0, i), g, before),
        after.len() == before.len(),
        forall|c: int| 0 <= c < after.len() ==> bucket_key(#[trigger] after[c]) == bucket_key(before[c])
            && after[c].label == before[c].label,
        forall|c: int| 0 <= c < after.len() && c != b ==> (#[trigger] after[c]).image_ids@ == before[c].image_ids@,
        after[b].image_ids@ == before[b].image_ids@.push(images[i].id),
    ensures
        is_date_bucketing(images.subrange(0, i + 1), g, after),
{
    let prefix = images.subrange(0, i);
    let next = images.subrange(0, i + 1);
    assert forall|c: int| 0 <= c < after.len() implies {
        &&& (#[trigger] after[c]).image_ids@ == ids_with_key(next, g, bucket_key(after[c]))
        &&& after[c].label@ == date_label(bucket_key(after[c]), g)
        &&& first_with_key(next, g, bucket_key(after[c])) == first_with_key(prefix, g, bucket_key(before[c]))
        &&& first_with_key(prefix, g, bucket_key(before[c])) < i
    } by {
        assert(bucket_key(after[c]) == bucket_key(before[c]));
        assert(before[c].label@ == date_label(bucket_key(before[c]), g));
        assert(first_with_key(prefix, g, bucket_key(before[c])) < prefix.len());
        lemma_ids_step(images, i, g, bucket_key(after[c]));
        lemma_first_step(images, i, g, bucket_key(after[c]));
        if c != b {
            assert(first_with_key(prefix, g, bucket_key(before[c])) != first_with_key(prefix, g, bucket_key(before[b])));
        }
    }
    assert forall|c: int, d: int| 0 <= c < d < after.len() implies first_with_key(next, g, bucket_key(#[trigger] after[c]))
        < first_with_key(next, g, bucket_key(#[trigger] after[d])) by {
        assert(first_with_key(prefix, g, bucket_key(before[c])) < first_with_key(prefix, g, bucket_key(before[d])));
    }
    assert forall|j: int| 0 <= j < next.len() && (#[trigger] image_key(next[j], g)) is Some implies exists|c: int|
        0 <= c < after.len() && Some(bucket_key(#[trigger] after[c])) == image_key(next[j], g) by {
        if j < i {
            assert(next[j] == prefix[j]);
            assert(image_key(prefix[j], g) is Some);
            let c = choose|c: int| 0 <= c < before.len() && Some(bucket_key(before[c])) == image_key(prefix[j], g);
            assert(bucket_key(after[c]) == bucket_key(before[c]));
        } else {
            assert(bucket_key(after[b]) == bucket_key(before[b]));
        }
    }
}

/// Images `0..=i` are bucketed when image `i` opens a new bucket.
proof fn lemma_step_new(
    images: Seq<DbImage>,
    i: int,
    g: DateGranularity,
    before: Seq<DateBucket>,
    bucket: DateBucket,
)
    requires
        0 <= i < images.len(),
        image_key(images[i], g) == Some(bucket_key(bucket)),
        forall|c: int| 0 <= c < before.len() ==> bucket_key(#[trigger] before[c]) != bucket_key(bucket),
        bucket.image_ids@ == seq![images[i].id],
        bucket.label@ == date_label(bucket_key(bucket), g),
        is_date_bucketing(images.subrange(0, i), g, before),
    ensures
        is_date_bucketing(images.subrange(0, i + 1), g, before.push(bucket)),
{
    let prefix = images.subrange(0, i);
    let next = images.subrange(0, i + 1);
    let after = before.push(bucket);
    let key = bucket_key(bucket);
    let nb = before.len() as int;
    assert forall|j: int| 0 <= j < prefix.len() implies image_key(#[trigger] prefix[j], g) != Some(key) by {
        if image_key(prefix[j], g) == Some(key) {
            assert(image_key(prefix[j], g) is Some);
            let q = choose|q: int| 0 <= q < before.len() && Some(bucket_key(before[q])) == image_key(prefix[j], g);
            assert(bucket_key(before[q]) != key);
        }
    }
    lemma_first_with_key(prefix, g, key);
    lemma_first_step(images, i, g, key);
    assert(first_with_key(next, g, key) == i);
    lemma_ids_step(images, i, g, key);
    lemma_ids_absent(prefix, g, key);
    assert(seq![images[i].id] =~= Seq::<i64>::empty().push(images[i].id));
    assert forall|c: int| 0 <= c < nb implies {
        &&& (#[trigger] after[c]).image_ids@ == ids_with_key(next, g, bucket_key(after[c]))
        &&& after[c].label@ == date_label(bucket_key(after[c]), g)
        &&& first_with_key(next, g, bucket_key(after[c])) == first_with_key(prefix, g, bucket_key(before[c]))
        &&& first_with_key(prefix, g, bucket_key(before[c])) < i
    } by {
        assert(after[c] == before[c]);
        assert(first_with_key(prefix, g, bucket_key(before[c])) < prefix.len());
        lemma_ids_step(images, i, g, bucket_key(after[c]));
        lemma_first_step(images, i, g, bucket_key(after[c]));
    }
    assert(after[nb] == bucket);
    assert forall|c: int, d: int| 0 <= c < d < after.len() implies first_with_key(next, g, bucket_key(#[trigger] after[c]))
        < first_with_key(next, g, bucket_key(#[trigger] after[d])) by {
        if d < nb {
            assert(first_with_key(prefix, g, bucket_key(before[c])) < first_with_key(prefix, g, bucket_key(before[d])));
        }
    }
    assert forall|j: int| 0 <= j < next.len() && (#[trigger] image_key(next[j], g)) is Some implies exists|c: int|
        0 <= c < after.len() && Some(bucket_key(#[trigger] after[c])) == image_key(next[j], g) by {
        if j < i {
            assert(next[j] == prefix[j]);
            assert(image_key(prefix[j], g) is Some);
            let c = choose|c: int| 0 <= c < before.len() && Some(bucket_key(before[c])) == image_key(prefix[j], g);
            assert(after[c] == before[c]);
        } else {
            assert(bucket_key(after[nb]) == key);
        }
    }
}

/// Adds image `i` to the buckets of images `0..i`.
fn add_to_buckets(buckets: &mut Vec<DateBucket>, images: &Vec<DbImage>, i: usize, g: DateGranularity)
    requires
        i < images@.len(),
        is_date_bucketing(images@.subrange(0, i as int), g, old(buckets)@),
    ensures
        is_date_bucketing(images@.subrange(0, i + 1), g, final(buckets)@),
{
    let ghost before = buckets@;
    match images[i].taken_at {
        None => {
            proof {
                lemma_step_undated(images@, i as int, g, before);
            }
        },
        Some(ts) => {
            let date = calendar_date(ts);
            let key: (i32, u32, u32) = match g {
                DateGranularity::Day => date,
                DateGranularity::Month => (date.0, date.1, 0),
                DateGranularity::Year => (date.0, 0, 0),
            };
            assert(image_key(images@[i as int], g) == Some(key));
            let id = images[i].id;
            match find_bucket(buckets, key) {
                Some(b) => {
                    buckets[b].image_ids.push(id);
                    proof {
                        lemma_step_existing(images@, i as int, g, before, buckets@, b as int);
                    }
                },
                None => {
                    let label = date_label_of(key, g);
                    let mut ids: Vec<i64> = Vec::new();
                    ids.push(id);
                    let bucket = DateBucket { year: key.0, month: key.1, day: key.2, label, image_ids: ids };
                    proof {
                        assert(ids@ =~= seq![id]);
                        lemma_step_new(images@, i as int, g, before, bucket);
                    }
                    buckets.push(bucket);
                },
            }
        },
    }
}

/// The date groups of one granularity for `images`: dated images bucketed by
/// calendar day, month or year in UTC. The buckets are kept in a `Vec`, in order of
/// first occurrence, rather than in a `HashMap`: a `HashMap` is walked in an order
/// that its per-process random seed decides, which no contract could state.
pub fn plan_date_buckets(images: &Vec<DbImage>, g: DateGranularity) -> (buckets: Vec<DateBucket>)
    ensures
        is_date_bucketing(images@, g, buckets@),
{
    let n = images.len();
    let mut buckets: Vec<DateBucket> = Vec::new();
    let mut i: usize = 0;
    while i < n
        invariant
            n == images@.len(),
            i <= n,
            is_date_bucketing(images@.subrange(0, i as int), g, buckets@),
        decreases n - i,
    {
        add_to_buckets(&mut buckets, images, i, g);
        i = i + 1;
    }
    assert(images@.subrange(0, n as int) =~= images@);
    buckets
}

/// No image of `images` has key `key`, so none of their ids is listed under it.
proof fn lemma_ids_absent(images: Seq<DbImage>, g: DateGranularity, key: (i32, u32, u32))
    requires
        forall|j: int| 0 <= j < images.len() ==> image_key(images[j], g) != Some(key),
    ensures
        ids_with_key(images, g, key) == Seq::<i64>::empty(),
    decreases images.len(),
{
    if images.len() > 0 {
        lemma_ids_absent(images.drop_last(), g, key);
    }
}

/// Every dated image falls in exactly one bucket of a granularity: the one whose
/// key is its date; undated images fall in none.
pub proof fn lemma_one_bucket_per_image(images: Seq<DbImage>, g: DateGranularity, buckets: Seq<DateBucket>, i: int)
    requires
        is_date_bucketing(images, g, buckets),
        0 <= i < images.len(),
    ensures
        image_key(images[i], g) is Some ==> exists|b: int|
            0 <= b < buckets.len() && Some(bucket_key(#[trigger] buckets[b])) == image_key(images[i], g),
        forall|b: int, c: int|
            0 <= b < buckets.len() && 0 <= c < buckets.len() && Some(bucket_key(#[trigger] buckets[b]))
                == image_key(images[i], g) && Some(bucket_key(#[trigger] buckets[c])) == image_key(images[i], g)
                ==> b == c,
        image_key(images[i], g) is None ==> forall|b: int|
            0 <= b < buckets.len() ==> Some(bucket_key(#[trigger] buckets[b])) != image_key(images[i], g),
{
    assert forall|b: int, c: int|
        0 <= b < buckets.len() && 0 <= c < buckets.len() && Some(bucket_key(#[trigger] buckets[b]))
            == image_key(images[i], g) && Some(bucket_key(#[trigger] buckets[c])) == image_key(images[i], g)
            implies b == c by {
        if b < c {
            assert(first_with_key(images, g, bucket_key(buckets[b])) < first_with_key(images, g, bucket_key(buckets[c])));
        } else if c < b {
            assert(first_with_key(images, g, bucket_key(buckets[c])) < first_with_key(images, g, bucket_key(buckets[b])));
        }
    }
}

/// Date buckets nest: two images in the same day bucket share their month bucket,
/// and two in the same month bucket share their year bucket.
pub proof fn lemma_buckets_nest(a: DbImage, b: DbImage)
    ensures
        image_key(a, DateGranularity::Day) is Some && image_key(a, DateGranularity::Day) == image_key(
            b,
            DateGranularity::Day,
        ) ==> image_key(a, DateGranularity::Month) == image_key(b, DateGranularity::Month),
        image_key(a, DateGranularity::Month) is Some && image_key(a, DateGranularity::Month) == image_key(
            b,
            DateGranularity::Month,
        ) ==> image_key(a, DateGranularity::Year) == image_key(b, DateGranularity::Year),
{
}

} // verus!
