use vstd::prelude::*;
use vstd::string::*;

verus! {

/// One mebibyte.
pub const MB: i64 = 1048576;

/// Number of file-size tiers.
pub const SIZE_TIERS: usize = 5;

/// Byte range `[low, high)` of a file-size tier.
pub open spec fn tier_bounds(t: int) -> (int, int) {
    if t == 0 {
        (0, 3 * MB)
    } else if t == 1 {
        (3 * MB, 6 * MB)
    } else if t == 2 {
        (6 * MB, 10 * MB)
    } else if t == 3 {
        (10 * MB, 20 * MB)
    } else {
        (20 * MB, i64::MAX as int)
    }
}

/// Label of a file-size tier.
pub open spec fn tier_label(t: int) -> Seq<char> {
    if t == 0 {
        "0–3 MB"@
    } else if t == 1 {
        "3–6 MB"@
    } else if t == 2 {
        "6–10 MB"@
    } else if t == 3 {
        "10–20 MB"@
    } else {
        "> 20 MB"@
    }
}
/// Whether a size in bytes lies in tier `t`.
pub open spec fn in_tier(size: int, t: int) -> bool {
    tier_bounds(t).0 <= size < tier_bounds(t).1
}

/// The tiers split the sizes `0 .. i64::MAX` between them: each such size lies in
/// exactly one tier, and no other size lies in any.
pub proof fn lemma_tiers_partition(size: int)
    ensures
        0 <= size < i64::MAX ==> exists|t: int| 0 <= t < SIZE_TIERS && #[trigger] in_tier(size, t),
        forall|t: int, u: int|
            0 <= t < SIZE_TIERS && 0 <= u < SIZE_TIERS && #[trigger] in_tier(size, t) && #[trigger] in_tier(size, u)
                ==> t == u,
        !(0 <= size < i64::MAX) ==> forall|t: int| 0 <= t < SIZE_TIERS ==> !#[trigger] in_tier(size, t),
{
    if 0 <= size < i64::MAX {
        if size < 3 * MB {
            assert(in_tier(size, 0));
        } else if size < 6 * MB {
            assert(in_tier(size, 1));
        } else if size < 10 * MB {
            assert(in_tier(size, 2));
        } else if size < 20 * MB {
            assert(in_tier(size, 3));
        } else {
            assert(in_tier(size, 4));
        }
    }
}

/// Ids of the images (pairs of id and size in bytes) whose size lies in
/// `[low, high)`, in list order.
pub open spec fn ids_in_range(images: Seq<(i64, i64)>, low: int, high: int) -> Seq<i64>
    decreases images.len(),
{
    if images.len() == 0 {
        Seq::empty()
    } else {
        let rest = ids_in_range(images.drop_last(), low, high);
        if low <= images.last().1 < high {
            rest.push(images.last().0)
        } else {
            rest
        }
    }
}

/// The size groups of the first `t` tiers, skipping empty tiers, as label and ids.
pub open spec fn size_plan(images: Seq<(i64, i64)>, t: nat) -> Seq<(Seq<char>, Seq<i64>)>
    decreases t,
{
    if t == 0 {
        Seq::empty()
    } else {
        let prev = size_plan(images, (t - 1) as nat);
        let ids = ids_in_range(images, tier_bounds(t - 1).0, tier_bounds(t - 1).1);
        if ids.len() > 0 {
            prev.push((tier_label(t - 1), ids))
        } else {
            prev
        }
    }
}

/// One file-size group to store.
#[derive(Debug, Clone, PartialEq)]
pub struct SizeBucket {
    pub label: String,
    pub image_ids: Vec<i64>,
}

/// Label and ids of each bucket.
pub open spec fn size_bucket_views(buckets: Seq<SizeBucket>) -> Seq<(Seq<char>, Seq<i64>)> {
    buckets.map_values(|b: SizeBucket| (b.label@, b.image_ids@))
}

/// Byte range of tier `t`.
fn tier_range(t: usize) -> (r: (i64, i64))
    requires
        t < SIZE_TIERS,
    ensures
        r.0 == tier_bounds(t as int).0,
        r.1 == tier_bounds(t as int).1,
{
    if t == 0 {
        (0, 3 * MB)
    } else if t == 1 {
        (3 * MB, 6 * MB)
    } else if t == 2 {
        (6 * MB, 10 * MB)
    } else if t == 3 {
        (10 * MB, 20 * MB)
    } else {
        (20 * MB, i64::MAX)
    }
}

/// Label of tier `t`.
fn tier_label_of(t: usize) -> (s: String)
    requires
        t < SIZE_TIERS,
    ensures
        s@ == tier_label(t as int),
{
    if t == 0 {
        String::from_str("0–3 MB")
    } else if t == 1 {
        String::from_str("3–6 MB")
    } else if t == 2 {
        String::from_str("6–10 MB")
    } else if t == 3 {
        String::from_str("10–20 MB")
    } else {
        String::from_str("> 20 MB")
    }
}

/// Ids of the images whose size lies in `[low, high)`.
fn ids_between(images: &Vec<(i64, i64)>, low: i64, high: i64) -> (ids: Vec<i64>)
    ensures
        ids@ == ids_in_range(images@, low as int, high as int),
{
    let mut ids: Vec<i64> = Vec::new();
    let mut i: usize = 0;
    while i < images.len()
        invariant
            i <= images@.len(),
            ids@ == ids_in_range(images@.subrange(0, i as int), low as int, high as int),
        decreases images@.len() - i,
    {
        let (id, size) = images[i];
        proof {
            assert(images@.subrange(0, i + 1).drop_last() =~= images@.subrange(0, i as int));
        }
        if low <= size && size < high {
            ids.push(id);
        }
        i = i + 1;
    }
    assert(images@.subrange(0, images@.len() as int) =~= images@);
    ids
}

/// The file-size groups for `images` (pairs of id and size in bytes): one group per
/// non-empty tier, in tier order.
pub fn plan_size_buckets(images: &Vec<(i64, i64)>) -> (buckets: Vec<SizeBucket>)
    ensures
        size_bucket_views(buckets@) == size_plan(images@, SIZE_TIERS as nat),
{
    let mut buckets: Vec<SizeBucket> = Vec::new();
    let mut t: usize = 0;
    while t < SIZE_TIERS
        invariant
            t <= SIZE_TIERS,
            size_bucket_views(buckets@) == size_plan(images@, t as nat),
        decreases SIZE_TIERS - t,
    {
        let (low, high) = tier_range(t);
        let ids = ids_between(images, low, high);
        if ids.len() > 0 {
            let label = tier_label_of(t);
            let ghost before = buckets@;
            buckets.push(SizeBucket { label, image_ids: ids });
            proof {
                assert(size_bucket_views(buckets@) =~= size_bucket_views(before).push(
                    (tier_label(t as int), ids@),
                ));
            }
        }
        t = t + 1;
    }
    buckets
}

} // verus!
