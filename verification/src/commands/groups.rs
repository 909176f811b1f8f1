use vstd::prelude::*;
use vstd::string::*;

use crate::db::models::{DbGroup, DbImage};
use crate::processor::compress::ResizeMode;
use crate::processor::job_runner::ProcessJobParams;
use crate::text::{signed_decimal, spec_signed_decimal, text_eq};

verus! {

/// Outcome of rebuilding groups.
#[derive(Debug, Clone, Copy, PartialEq, Eq)]
pub struct RebuildResult {
    pub groups_created: usize,
    pub duration_ms: u128,
}

/// A duplicate cluster with its images and suggested keeper.
#[derive(Debug, Clone, PartialEq)]
pub struct DuplicateCluster {
    pub cluster_id: i64,
    pub images: Vec<DbImage>,
    pub suggested_keeper_id: Option<i64>,
}

/// A member of a duplicate cluster as the store lists it.
#[derive(Debug, Clone, PartialEq)]
pub struct DuplicateClusterRow {
    pub group_id: i64,
    pub image: DbImage,
    pub is_keeper: i64,
}

/// Images of the rows of cluster `id`, in row order.
pub open spec fn cluster_images(rows: Seq<DuplicateClusterRow>, id: i64) -> Seq<DbImage>
    decreases rows.len(),
{
    if rows.len() == 0 {
        Seq::empty()
    } else {
        let rest = cluster_images(rows.drop_last(), id);
        if rows.last().group_id == id {
            rest.push(rows.last().image)
        } else {
            rest
        }
    }
}

/// The image of the last row of cluster `id` marked as keeper, if any.
pub open spec fn cluster_keeper(rows: Seq<DuplicateClusterRow>, id: i64) -> Option<i64>
    decreases rows.len(),
{
    if rows.len() == 0 {
        None
    } else if rows.last().group_id == id && rows.last().is_keeper == 1 {
        Some(rows.last().image.id)
    } else {
        cluster_keeper(rows.drop_last(), id)
    }
}

/// Position of the first row of cluster `id`, or the number of rows when none.
pub open spec fn first_row(rows: Seq<DuplicateClusterRow>, id: i64) -> int
    decreases rows.len(),
{
    if rows.len() == 0 {
        0
    } else {
        let f = first_row(rows.drop_last(), id);
        if f < rows.len() - 1 {
            f
        } else if rows.last().group_id == id {
            rows.len() - 1
        } else {
            rows.len() as int
        }
    }
}

/// `clusters` gathers the rows by cluster: one entry per cluster id that occurs,
/// in order of first occurrence, with the images of its rows in row order and the
/// last image marked as keeper.
pub open spec fn is_cluster_listing(rows: Seq<DuplicateClusterRow>, clusters: Seq<DuplicateCluster>) -> bool {
    &&& forall|c: int| 0 <= c < clusters.len() ==> (#[trigger] clusters[c]).images@ == cluster_images(
        rows,
        clusters[c].cluster_id,
    )
    &&& forall|c: int| 0 <= c < clusters.len() ==> (#[trigger] clusters[c]).suggested_keeper_id == cluster_keeper(
        rows,
        clusters[c].cluster_id,
    )
    &&& forall|c: int| 0 <= c < clusters.len() ==> first_row(rows, (#[trigger] clusters[c]).cluster_id) < rows.len()
    &&& forall|i: int| 0 <= i < rows.len() ==> exists|c: int|
        0 <= c < clusters.len() && (#[trigger] clusters[c]).cluster_id == (#[trigger] rows[i]).group_id
    &&& forall|c: int, d: int| 0 <= c < d < clusters.len() ==> first_row(rows, (#[trigger] clusters[c]).cluster_id)
        < first_row(rows, (#[trigger] clusters[d]).cluster_id)
}

proof fn lemma_first_row(rows: Seq<DuplicateClusterRow>, id: i64)
    ensures
        0 <= first_row(rows, id) <= rows.len(),
        first_row(rows, id) < rows.len() ==> rows[first_row(rows, id)].group_id == id,
        forall|j: int| 0 <= j < first_row(rows, id) ==> (#[trigger] rows[j]).group_id != id,
    decreases rows.len(),
{
    if rows.len() > 0 {
        lemma_first_row(rows.drop_last(), id);
        let d = rows.drop_last();
        assert forall|j: int| 0 <= j < d.len() implies d[j] == rows[j] by {}
    }
}

proof fn lemma_row_step(rows: Seq<DuplicateClusterRow>, i: int, id: i64)
    requires
        0 <= i < rows.len(),
    ensures
        cluster_images(rows.subrange(0, i + 1), id) == if rows[i].group_id == id {
            cluster_images(rows.subrange(0, i), id).push(rows[i].image)
        } else {
            cluster_images(rows.subrange(0, i), id)
        },
        cluster_keeper(rows.subrange(0, i + 1), id) == if rows[i].group_id == id && rows[i].is_keeper == 1 {
            Some(rows[i].image.id)
        } else {
            cluster_keeper(rows.subrange(0, i), id)
        },
        first_row(rows.subrange(0, i + 1), id) == if first_row(rows.subrange(0, i), id) < i {
            first_row(rows.subrange(0, i), id)
        } else if rows[i].group_id == id {
            i
        } else {
            i + 1
        },
{
    assert(rows.subrange(0, i + 1).drop_last() =~= rows.subrange(0, i));
    lemma_first_row(rows.subrange(0, i), id);
}

proof fn lemma_images_absent(rows: Seq<DuplicateClusterRow>, id: i64)
    requires
        forall|j: int| 0 <= j < rows.len() ==> (#[trigger] rows[j]).group_id != id,
    ensures
        cluster_images(rows, id) == Seq::<DbImage>::empty(),
        cluster_keeper(rows, id) is None,
    decreases rows.len(),
{
    if rows.len() > 0 {
        lemma_images_absent(rows.drop_last(), id);
    }
}

/// Row `i` joins the existing entry `b`.
proof fn lemma_join_existing(
    rows: Seq<DuplicateClusterRow>,
    i: int,
    before: Seq<DuplicateCluster>,
    after: Seq<DuplicateCluster>,
    b: int,
)
    requires
        0 <= i < rows.len(),
        0 <= b < before.len(),
        rows[i].group_id == before[b].cluster_id,
        is_cluster_listing(rows.subrange(0, i), before),
        after.len() == before.len(),
        forall|c: int| 0 <= c < after.len() ==> (#[trigger] after[c]).cluster_id == before[c].cluster_id,
        forall|c: int| 0 <= c < after.len() && c != b ==> (#[trigger] after[c]).images@ == before[c].images@
            && after[c].suggested_keeper_id == before[c].suggested_keeper_id,
        after[b].images@ == before[b].images@.push(rows[i].image),
        after[b].suggested_keeper_id == if rows[i].is_keeper == 1 {
            Some(rows[i].image.id)
        } else {
            before[b].suggested_keeper_id
        },
    ensures
        is_cluster_listing(rows.subrange(0, i + 1), after),
{
    let prefix = rows.subrange(0, i);
    let next = rows.subrange(0, i + 1);
    assert forall|c: int| 0 <= c < after.len() implies {
        &&& (#[trigger] after[c]).images@ == cluster_images(next, after[c].cluster_id)
        &&& after[c].suggested_keeper_id == cluster_keeper(next, after[c].cluster_id)
        &&& first_row(next, after[c].cluster_id) == first_row(prefix, before[c].cluster_id)
        &&& first_row(prefix, before[c].cluster_id) < i
    } by {
        assert(first_row(prefix, before[c].cluster_id) < prefix.len());
        lemma_row_step(rows, i, after[c].cluster_id);
        if c != b {
            assert(first_row(prefix, before[c].cluster_id) != first_row(prefix, before[b].cluster_id));
        }
    }
    assert forall|c: int, d: int| 0 <= c < d < after.len() implies first_row(next, (#[trigger] after[c]).cluster_id)
        < first_row(next, (#[trigger] after[d]).cluster_id) by {
        assert(first_row(prefix, before[c].cluster_id) < first_row(prefix, before[d].cluster_id));
    }
    assert forall|j: int| 0 <= j < next.len() implies exists|c: int|
        0 <= c < after.len() && (#[trigger] after[c]).cluster_id == (#[trigger] next[j]).group_id by {
        if j < i {
            assert(next[j] == prefix[j]);
            let c = choose|c: int| 0 <= c < before.len() && before[c].cluster_id == prefix[j].group_id;
            assert(after[c].cluster_id == before[c].cluster_id);
        } else {
            assert(after[b].cluster_id == before[b].cluster_id);
        }
    }
}

/// Row `i` opens a new entry.
proof fn lemma_join_new(
    rows: Seq<DuplicateClusterRow>,
    i: int,
    before: Seq<DuplicateCluster>,
    entry: DuplicateCluster,
)
    requires
        0 <= i < rows.len(),
        entry.cluster_id == rows[i].group_id,
        forall|c: int| 0 <= c < before.len() ==> (#[trigger] before[c]).cluster_id != entry.cluster_id,
        entry.images@ == seq![rows[i].image],
        entry.suggested_keeper_id == if rows[i].is_keeper == 1 {
            Some(rows[i].image.id)
        } else {
            None
        },
        is_cluster_listing(rows.subrange(0, i), before),
    ensures
        is_cluster_listing(rows.subrange(0, i + 1), before.push(entry)),
{
    let prefix = rows.subrange(0, i);
    let next = rows.subrange(0, i + 1);
    let after = before.push(entry);
    let id = entry.cluster_id;
    let nb = before.len() as int;
    assert forall|j: int| 0 <= j < prefix.len() implies (#[trigger] prefix[j]).group_id != id by {
        if prefix[j].group_id == id {
            let q = choose|q: int| 0 <= q < before.len() && before[q].cluster_id == prefix[j].group_id;
        }
    }
    lemma_first_row(prefix, id);
    lemma_row_step(rows, i, id);
    lemma_images_absent(prefix, id);
    assert(seq![rows[i].image] =~= Seq::<DbImage>::empty().push(rows[i].image));
    assert forall|c: int| 0 <= c < nb implies {
        &&& (#[trigger] after[c]).images@ == cluster_images(next, after[c].cluster_id)
        &&& after[c].suggested_keeper_id == cluster_keeper(next, after[c].cluster_id)
        &&& first_row(next, after[c].cluster_id) == first_row(prefix, before[c].cluster_id)
        &&& first_row(prefix, before[c].cluster_id) < i
    } by {
        assert(after[c] == before[c]);
        assert(first_row(prefix, before[c].cluster_id) < prefix.len());
        lemma_row_step(rows, i, after[c].cluster_id);
    }
    assert(after[nb] == entry);
    assert forall|c: int, d: int| 0 <= c < d < after.len() implies first_row(next, (#[trigger] after[c]).cluster_id)
        < first_row(next, (#[trigger] after[d]).cluster_id) by {
        if d < nb {
            assert(first_row(prefix, before[c].cluster_id) < first_row(prefix, before[d].cluster_id));
        }
    }
    assert forall|j: int| 0 <= j < next.len() implies exists|c: int|
        0 <= c < after.len() && (#[trigger] after[c]).cluster_id == (#[trigger] next[j]).group_id by {
        if j < i {
            assert(next[j] == prefix[j]);
            let c = choose|c: int| 0 <= c < before.len() && before[c].cluster_id == prefix[j].group_id;
            assert(after[c] == before[c]);
        } else {
            assert(after[nb].cluster_id == id);
        }
    }
}

/// Position of the entry of cluster `id`, if any.
fn find_cluster(clusters: &Vec<DuplicateCluster>, id: i64) -> (r: Option<usize>)
    ensures
        r matches Some(b) ==> b < clusters@.len() && clusters@[b as int].cluster_id == id,
        r is None ==> forall|b: int| 0 <= b < clusters@.len() ==> (#[trigger] clusters@[b]).cluster_id != id,
{
    let mut b: usize = 0;
    while b < clusters.len()
        invariant
            b <= clusters@.len(),
            forall|c: int| 0 <= c < b ==> (#[trigger] clusters@[c]).cluster_id != id,
        decreases clusters@.len() - b,
    {
        if clusters[b].cluster_id == id {
            return Some(b);
        }
        b = b + 1;
    }
    None
}

/// Adds row `i` (given by value as `row`) to the entries built from rows `0..i`.
fn add_row(clusters: &mut Vec<DuplicateCluster>, row: DuplicateClusterRow, Ghost(rows): Ghost<Seq<DuplicateClusterRow>>, Ghost(i): Ghost<int>)
    requires
        0 <= i < rows.len(),
        rows[i] == row,
        is_cluster_listing(rows.subrange(0, i), old(clusters)@),
    ensures
        is_cluster_listing(rows.subrange(0, i + 1), final(clusters)@),
{
    let ghost before = clusters@;
    let id = row.group_id;
    let keeper = row.is_keeper == 1;
    let image_id = row.image.id;
    match find_cluster(clusters, id) {
        Some(b) => {
            clusters[b].images.push(row.image);
            if keeper {
                clusters[b].suggested_keeper_id = Some(image_id);
            }
            proof {
                lemma_join_existing(rows, i, before, clusters@, b as int);
            }
        },
        None => {
            let mut images: Vec<DbImage> = Vec::new();
            images.push(row.image);
            let entry = DuplicateCluster {
                cluster_id: id,
                images,
                suggested_keeper_id: if keeper {
                    Some(image_id)
                } else {
                    None
                },
            };
            proof {
                assert(entry.images@ =~= seq![rows[i].image]);
                lemma_join_new(rows, i, before, entry);
            }
            clusters.push(entry);
        },
    }
}

/// Gathers cluster rows into clusters, in order of first occurrence, each with the
/// images of its rows and the last image marked as keeper. The clusters are kept in
/// a `Vec` rather than a `HashMap`, whose walk order its per-process random seed
/// decides and no contract could state.
pub fn assemble_duplicate_clusters(rows: Vec<DuplicateClusterRow>) -> (clusters: Vec<DuplicateCluster>)
    ensures
        is_cluster_listing(rows@, clusters@),
{
    let ghost all = rows@;
    let n = rows.len();
    let mut rest = rows;
    let mut stack: Vec<DuplicateClusterRow> = Vec::new();
    while rest.len() > 0
        invariant
            rest@.len() + stack@.len() == n,
            n == all.len(),
            rest@ == all.subrange(0, rest@.len() as int),
            forall|k: int| 0 <= k < stack@.len() ==> #[trigger] stack@[k] == all[n - 1 - k],
        decreases rest@.len(),
    {
        let row = rest.pop().unwrap();
        stack.push(row);
    }
    let mut clusters: Vec<DuplicateCluster> = Vec::new();
    let mut i: usize = 0;
    while stack.len() > 0
        invariant
            n == all.len(),
            i + stack@.len() == n,
            forall|k: int| 0 <= k < stack@.len() ==> #[trigger] stack@[k] == all[n - 1 - k],
            is_cluster_listing(all.subrange(0, i as int), clusters@),
        decreases stack@.len(),
    {
        let row = stack.pop().unwrap();
        proof {
            assert(row == all[i as int]);
        }
        add_row(&mut clusters, row, Ghost(all), Ghost(i as int));
        i = i + 1;
    }
    assert(all.subrange(0, n as int) =~= all);
    clusters
}

/// Per-image information for estimating the output of processing a group.
#[derive(Debug, Clone, PartialEq)]
pub struct ImageSummaryItem {
    pub image_id: i64,
    pub file_name: String,
    pub file_size_bytes: i64,
    pub width_px: Option<i64>,
    pub height_px: Option<i64>,
}

/// The summary of an image.
pub fn summary_item(img: &DbImage) -> (r: ImageSummaryItem)
    ensures
        r.image_id == img.id,
        r.file_name@ == img.file_name@,
        r.file_size_bytes == img.file_size_bytes,
        r.width_px == img.width_px,
        r.height_px == img.height_px,
{
    ImageSummaryItem {
        image_id: img.id,
        file_name: img.file_name.clone(),
        file_size_bytes: img.file_size_bytes,
        width_px: img.width_px,
        height_px: img.height_px,
    }
}

/// Params sent from the frontend to configure per-group processing.
#[derive(Debug, Clone, PartialEq)]
pub struct ProcessGroupPayload {
    /// "folder" = write to output_dir/group_label/, "overwrite" = replace originals in place.
    pub output_mode: String,
    pub output_dir: Option<String>,
    pub move_files: bool,
    pub resize: ResizeMode,
    pub target_format: Option<String>,
    pub quality: Option<u8>,
}

/// Folder mode needs a non-empty output folder.
pub open spec fn payload_valid(p: ProcessGroupPayload) -> bool {
    !(p.output_mode@ == "folder"@ && match p.output_dir {
        Some(d) => d@.len() == 0,
        None => true,
    })
}

/// Refuses folder mode without an output folder.
pub fn check_process_payload(payload: &ProcessGroupPayload) -> (r: Result<(), String>)
    ensures
        r is Ok <==> payload_valid(*payload),
        r matches Err(e) ==> e@ == "output_dir is required for folder mode"@,
{
    let missing = match &payload.output_dir {
        Some(d) => d.as_str().unicode_len() == 0,
        None => true,
    };
    if text_eq(payload.output_mode.as_str(), "folder") && missing {
        Err(String::from_str("output_dir is required for folder mode"))
    } else {
        Ok(())
    }
}

/// The job that processing a group creates.
#[derive(Debug, Clone, PartialEq)]
pub struct ProcessGroupPlan {
    pub image_ids: Vec<i64>,
    pub output_mode: String,
    pub output_dir: Option<String>,
    pub params: ProcessJobParams,
}

/// The first group with id `id`, if any.
pub open spec fn group_position(groups: Seq<DbGroup>, id: i64, k: int) -> bool {
    0 <= k < groups.len() && groups[k].id == id && forall|j: int| 0 <= j < k ==> (#[trigger] groups[j]).id != id
}

/// Position of the first group with id `group_id`, if any.
pub fn find_group(groups: &Vec<DbGroup>, group_id: i64) -> (r: Option<usize>)
    ensures
        r matches Some(k) ==> group_position(groups@, group_id, k as int),
        r is None ==> forall|k: int| 0 <= k < groups@.len() ==> (#[trigger] groups@[k]).id != group_id,
{
    let mut k: usize = 0;
    while k < groups.len()
        invariant
            k <= groups@.len(),
            forall|j: int| 0 <= j < k ==> (#[trigger] groups@[j]).id != group_id,
        decreases groups@.len() - k,
    {
        if groups[k].id == group_id {
            return Some(k);
        }
        k = k + 1;
    }
    None
}

/// The job for processing group `group_id` (one of `groups`) whose images are
/// `image_ids`: an unknown group or a group without images is refused; mode
/// `"overwrite"` becomes in-place processing without an output folder, any other
/// mode writes to the payload's output folder; the job's parameters carry the
/// group's label and the payload's choices.
pub fn plan_process_group(
    payload: &ProcessGroupPayload,
    groups: &Vec<DbGroup>,
    group_id: i64,
    image_ids: Vec<i64>,
) -> (r: Result<ProcessGroupPlan, String>)
    ensures
        (forall|k: int| 0 <= k < groups@.len() ==> (#[trigger] groups@[k]).id != group_id) ==> (r matches Err(e)
            && e@ == "group "@ + spec_signed_decimal(group_id as int) + " not found"@),
        (exists|k: int| group_position(groups@, group_id, k)) && image_ids@.len() == 0 ==> (r matches Err(e)
            && e@ == "group has no images"@),
        r is Ok <==> (exists|k: int| group_position(groups@, group_id, k)) && image_ids@.len() > 0,
        r matches Ok(plan) ==> {
            &&& plan.image_ids@ == image_ids@
            &&& if payload.output_mode@ == "overwrite"@ {
                plan.output_mode@ == "in_place"@ && plan.output_dir is None
            } else {
                plan.output_mode@ == "output_folder"@ && match payload.output_dir {
                    Some(d) => plan.output_dir matches Some(pd) && pd@ == d@,
                    None => plan.output_dir is None,
                }
            }
            &&& exists|k: int|
                group_position(groups@, group_id, k) && plan.params.group_label@ == groups@[k].label@
            &&& plan.params.move_files == payload.move_files
            &&& plan.params.resize == payload.resize
            &&& plan.params.quality == payload.quality
            &&& match payload.target_format {
                Some(f) => plan.params.target_format matches Some(pf) && pf@ == f@,
                None => plan.params.target_format is None,
            }
        },
{
    let mut k: usize = 0;
    let mut found: Option<usize> = None;
    while k < groups.len()
        invariant
            k <= groups@.len(),
            found is None ==> forall|j: int| 0 <= j < k ==> (#[trigger] groups@[j]).id != group_id,
            found matches Some(f) ==> group_position(groups@, group_id, f as int),
        decreases groups@.len() - k,
    {
        if found.is_none() && groups[k].id == group_id {
            found = Some(k);
        }
        k = k + 1;
    }
    let pos = match found {
        Some(p) => p,
        None => {
            let mut msg = String::from_str("group ");
            msg.append(signed_decimal(group_id).as_str());
            msg.append(" not found");
            return Err(msg);
        },
    };
    if image_ids.len() == 0 {
        return Err(String::from_str("group has no images"));
    }
    let (output_mode, output_dir) = if text_eq(payload.output_mode.as_str(), "overwrite") {
        (String::from_str("in_place"), None)
    } else {
        (
            String::from_str("output_folder"),
            match &payload.output_dir {
                Some(d) => Some(d.clone()),
                None => None,
            },
        )
    };
    let params = ProcessJobParams {
        group_label: groups[pos].label.clone(),
        move_files: payload.move_files,
        resize: payload.resize,
        target_format: match &payload.target_format {
            Some(f) => Some(f.clone()),
            None => None,
        },
        quality: payload.quality,
    };
    Ok(ProcessGroupPlan { image_ids, output_mode, output_dir, params })
}

} // verus!
