use vstd::prelude::*;
use vstd::string::*;
use vstd::utf8::*;

use crate::db::models::DbImage;
use crate::text::{decimal, spec_decimal};
use crate::scanner::hash::{
    bit_difference, hamming_distance, hex_decode, lemma_distance_at_most, spec_hamming_distance, spec_hex_decode,
};

verus! {

/// The texts of the hashes, one per image.
pub open spec fn hash_texts(hashes: Seq<String>) -> Seq<Seq<char>> {
    hashes.map_values(|s: String| s@)
}

/// Images `i` and `j` are near duplicates: their hashes are comparable and differ
/// in at most `max` bits.
pub open spec fn near(hs: Seq<Seq<char>>, max: u32, i: int, j: int) -> bool {
    spec_hamming_distance(hs[i], hs[j]) matches Some(d) && d <= max
}

/// Step `k` of the index sequence `p` joins two near duplicates.
pub open spec fn chain_step(hs: Seq<Seq<char>>, max: u32, p: Seq<int>, k: int) -> bool {
    near(hs, max, p[k], p[k + 1])
}

/// `p` is a non-empty sequence of image indices in which each image is a near
/// duplicate of the next.
pub open spec fn is_near_chain(hs: Seq<Seq<char>>, max: u32, p: Seq<int>) -> bool {
    &&& p.len() >= 1
    &&& forall|k: int| 0 <= k < p.len() ==> 0 <= #[trigger] p[k] < hs.len()
    &&& forall|k: int| 0 <= k < p.len() - 1 ==> #[trigger] chain_step(hs, max, p, k)
}

/// Images `i` and `j` are joined by a chain of near duplicates.
pub open spec fn linked(hs: Seq<Seq<char>>, max: u32, i: int, j: int) -> bool {
    exists|p: Seq<int>| #[trigger] is_near_chain(hs, max, p) && p[0] == i && p.last() == j
}

/// `linked` on indices held as `usize`.
pub open spec fn member_linked(hs: Seq<Seq<char>>, max: u32, i: usize, j: usize) -> bool {
    linked(hs, max, i as int, j as int)
}

/// `cl` lists the duplicate clusters of the images whose hash texts are `hs`:
/// each cluster is a whole class of images joined by near-duplicate chains, has at
/// least two members, lists them in increasing order, and the clusters come in
/// increasing order of their first member. Every image that is linked to another
/// image lies in some cluster.
pub open spec fn is_duplicate_clustering(
    hs: Seq<Seq<char>>,
    max: u32,
    cl: Seq<Seq<usize>>,
) -> bool {
    let n = hs.len();
    &&& forall|c: int| 0 <= c < cl.len() ==> (#[trigger] cl[c]).len() >= 2
    &&& forall|c: int, k: int| 0 <= c < cl.len() && 0 <= k < cl[c].len() ==> (#[trigger] cl[c][k]) < n
    &&& forall|c: int, k: int, l: int|
        0 <= c < cl.len() && 0 <= k < l < cl[c].len() ==> #[trigger] cl[c][k] < #[trigger] cl[c][l]
    &&& forall|c: int, k: int, j: usize|
        #![trigger member_linked(hs, max, cl[c][k], j)]
        #![trigger cl[c][k], cl[c].contains(j)]
        0 <= c < cl.len() && 0 <= k < cl[c].len() && j < n ==> (member_linked(hs, max, cl[c][k], j)
            <==> cl[c].contains(j))
    &&& forall|c: int, d: int| 0 <= c < d < cl.len() ==> #[trigger] cl[c][0] < #[trigger] cl[d][0]
    &&& forall|i: usize, j: usize|
        #![trigger member_linked(hs, max, i, j)]
        i < n && j < n && i != j && member_linked(hs, max, i, j) ==> exists|c: int|
            0 <= c < cl.len() && (#[trigger] cl[c]).contains(i)
}

/// The index lists held by a vector of vectors.
pub open spec fn index_lists(v: Seq<Vec<usize>>) -> Seq<Seq<usize>> {
    v.map_values(|c: Vec<usize>| c@)
}

proof fn lemma_bit_difference_symmetric(a: Seq<u8>, b: Seq<u8>, n: int)
    ensures
        bit_difference(a, b, n) == bit_difference(b, a, n),
    decreases n,
{
    if n > 0 {
        lemma_bit_difference_symmetric(a, b, n - 1);
        let x = a[n - 1];
        let y = b[n - 1];
        assert(x ^ y == y ^ x) by (bit_vector);
    }
}

/// The distance between two hashes does not depend on their order.
pub proof fn lemma_hamming_symmetric(a: Seq<char>, b: Seq<char>)
    ensures
        spec_hamming_distance(a, b) == spec_hamming_distance(b, a),
{
    match (spec_hex_decode(encode_utf8(a)), spec_hex_decode(encode_utf8(b))) {
        (Some(x), Some(y)) => {
            lemma_bit_difference_symmetric(x, y, x.len() as int);
        },
        _ => {},
    }
}

proof fn lemma_near_symmetric(hs: Seq<Seq<char>>, max: u32, i: int, j: int)
    ensures
        near(hs, max, i, j) == near(hs, max, j, i),
{
    lemma_hamming_symmetric(hs[i], hs[j]);
}

proof fn lemma_linked_refl(hs: Seq<Seq<char>>, max: u32, i: int)
    requires
        0 <= i < hs.len(),
    ensures
        linked(hs, max, i, i),
{
    let p = seq![i];
    assert(is_near_chain(hs, max, p));
}

proof fn lemma_linked_near(hs: Seq<Seq<char>>, max: u32, i: int, j: int)
    requires
        0 <= i < hs.len(),
        0 <= j < hs.len(),
        near(hs, max, i, j),
    ensures
        linked(hs, max, i, j),
{
    let p = seq![i, j];
    assert(chain_step(hs, max, p, 0));
    assert(is_near_chain(hs, max, p));
}

proof fn lemma_linked_sym(hs: Seq<Seq<char>>, max: u32, i: int, j: int)
    requires
        linked(hs, max, i, j),
    ensures
        linked(hs, max, j, i),
{
    let p = choose|p: Seq<int>| #[trigger] is_near_chain(hs, max, p) && p[0] == i && p.last() == j;
    let len = p.len();
    let r = Seq::new(len, |k: int| p[len - 1 - k]);
    assert forall|k: int| 0 <= k < r.len() - 1 implies #[trigger] chain_step(hs, max, r, k) by {
        assert(chain_step(hs, max, p, len - 2 - k));
        lemma_near_symmetric(hs, max, p[len - 2 - k], p[len - 1 - k]);
    }
    assert forall|k: int| 0 <= k < r.len() implies 0 <= #[trigger] r[k] < hs.len() by {
        assert(0 <= p[len - 1 - k] < hs.len());
    }
    assert(is_near_chain(hs, max, r));
}

proof fn lemma_linked_trans(hs: Seq<Seq<char>>, max: u32, i: int, j: int, k: int)
    requires
        linked(hs, max, i, j),
        linked(hs, max, j, k),
    ensures
        linked(hs, max, i, k),
{
    let p = choose|p: Seq<int>| #[trigger] is_near_chain(hs, max, p) && p[0] == i && p.last() == j;
    let q = choose|q: Seq<int>| #[trigger] is_near_chain(hs, max, q) && q[0] == j && q.last() == k;
    let r = p + q.drop_first();
    assert forall|m: int| 0 <= m < r.len() - 1 implies #[trigger] chain_step(hs, max, r, m) by {
        if m < p.len() - 1 {
            assert(chain_step(hs, max, p, m));
        } else {
            assert(chain_step(hs, max, q, m - p.len() + 1));
        }
    }
    assert forall|m: int| 0 <= m < r.len() implies 0 <= #[trigger] r[m] < hs.len() by {
        if m < p.len() {
            assert(0 <= p[m] < hs.len());
        } else {
            assert(0 <= q[m - p.len() + 1] < hs.len());
        }
    }
    assert(is_near_chain(hs, max, r));
}

/// When every pair of near duplicates shares a root, so do the two ends of any chain.
proof fn lemma_chain_same_root(hs: Seq<Seq<char>>, max: u32, root: Seq<int>, p: Seq<int>)
    requires
        is_near_chain(hs, max, p),
        root.len() == hs.len(),
        forall|a: int, b: int|
            0 <= a < hs.len() && 0 <= b < hs.len() && #[trigger] near(hs, max, a, b) ==> root[a]
                == root[b],
    ensures
        root[p[0]] == root[p.last()],
    decreases p.len(),
{
    if p.len() > 1 {
        let q = p.drop_last();
        assert forall|k: int| 0 <= k < q.len() - 1 implies #[trigger] chain_step(hs, max, q, k) by {
            assert(chain_step(hs, max, p, k));
        }
        assert forall|k: int| 0 <= k < q.len() implies 0 <= #[trigger] q[k] < hs.len() by {
            assert(0 <= p[k] < hs.len());
        }
        lemma_chain_same_root(hs, max, root, q);
        assert(chain_step(hs, max, p, p.len() - 2));
        assert(0 <= p[p.len() - 2] < hs.len());
        assert(0 <= p[p.len() - 1] < hs.len());
    }
}

/// No image lies in two duplicate clusters: the clusters are disjoint.
pub proof fn lemma_clusters_disjoint(hs: Seq<Seq<char>>, max: u32, cl: Seq<Seq<usize>>, c: int, d: int, j: usize)
    requires
        is_duplicate_clustering(hs, max, cl),
        0 <= c < cl.len(),
        0 <= d < cl.len(),
        c != d,
    ensures
        !(cl[c].contains(j) && cl[d].contains(j)),
{
    if cl[c].contains(j) && cl[d].contains(j) {
        let n = hs.len();
        let kc = choose|k: int| 0 <= k < cl[c].len() && cl[c][k] == j;
        let kd = choose|k: int| 0 <= k < cl[d].len() && cl[d][k] == j;
        assert(cl[c][kc] < n);
        let a = cl[c][0];
        let b = cl[d][0];
        assert(a < n && b < n);
        assert(member_linked(hs, max, a, j));
        assert(member_linked(hs, max, b, j));
        lemma_linked_sym(hs, max, b as int, j as int);
        lemma_linked_trans(hs, max, a as int, j as int, b as int);
        lemma_linked_sym(hs, max, a as int, b as int);
        assert(member_linked(hs, max, a, b));
        assert(member_linked(hs, max, b, a));
        assert(cl[c].contains(b));
        assert(cl[d].contains(a));
        let ib = choose|k: int| 0 <= k < cl[c].len() && cl[c][k] == b;
        let ia = choose|k: int| 0 <= k < cl[d].len() && cl[d][k] == a;
        if ib > 0 {
            assert(cl[c][0] < cl[c][ib]);
        }
        if ia > 0 {
            assert(cl[d][0] < cl[d][ia]);
        }
        assert(a == b);
        if c < d {
            assert(cl[c][0] < cl[d][0]);
        } else {
            assert(cl[d][0] < cl[c][0]);
        }
    }
}
/// Two strictly increasing sequences with the same elements are equal.
proof fn lemma_increasing_same_elements(s1: Seq<usize>, s2: Seq<usize>)
    requires
        forall|k: int, l: int| 0 <= k < l < s1.len() ==> #[trigger] s1[k] < #[trigger] s1[l],
        forall|k: int, l: int| 0 <= k < l < s2.len() ==> #[trigger] s2[k] < #[trigger] s2[l],
        forall|x: usize| #![trigger s1.contains(x)] #![trigger s2.contains(x)] s1.contains(x) <==> s2.contains(x),
    ensures
        s1 == s2,
    decreases s1.len(),
{
    if s1.len() == 0 {
        if s2.len() > 0 {
            assert(s2.contains(s2[0]));
        }
        assert(s1 =~= s2);
    } else if s2.len() == 0 {
        assert(s1.contains(s1[0]));
    } else {
        assert(s1.contains(s1[0]));
        assert(s2.contains(s2[0]));
        let k2 = choose|k: int| 0 <= k < s2.len() && s2[k] == s1[0];
        let k1 = choose|k: int| 0 <= k < s1.len() && s1[k] == s2[0];
        if k2 > 0 {
            assert(s2[0] < s2[k2]);
        }
        if k1 > 0 {
            assert(s1[0] < s1[k1]);
        }
        assert(s1[0] == s2[0]);
        let t1 = s1.drop_first();
        let t2 = s2.drop_first();
        assert forall|x: usize| #![trigger t1.contains(x)] #![trigger t2.contains(x)] t1.contains(x) <==> t2.contains(x) by {
            if t1.contains(x) {
                let k = choose|k: int| 0 <= k < t1.len() && t1[k] == x;
                assert(s1[k + 1] == x);
                assert(s1[0] < s1[k + 1]);
                assert(s1.contains(x));
                let m = choose|m: int| 0 <= m < s2.len() && s2[m] == x;
                assert(m != 0);
                assert(t2[m - 1] == x);
            }
            if t2.contains(x) {
                let k = choose|k: int| 0 <= k < t2.len() && t2[k] == x;
                assert(s2[k + 1] == x);
                assert(s2[0] < s2[k + 1]);
                assert(s2.contains(x));
                let m = choose|m: int| 0 <= m < s1.len() && s1[m] == x;
                assert(m != 0);
                assert(t1[m - 1] == x);
            }
        }
        assert forall|k: int, l: int| 0 <= k < l < t1.len() implies #[trigger] t1[k] < #[trigger] t1[l] by {
            assert(s1[k + 1] < s1[l + 1]);
        }
        assert forall|k: int, l: int| 0 <= k < l < t2.len() implies #[trigger] t2[k] < #[trigger] t2[l] by {
            assert(s2[k + 1] < s2[l + 1]);
        }
        lemma_increasing_same_elements(t1, t2);
        assert forall|i: int| 0 <= i < s1.len() implies s1[i] == s2[i] by {
            if i > 0 {
                assert(s1[i] == t1[i - 1]);
                assert(s2[i] == t2[i - 1]);
            }
        }
        assert(s1 =~= s2);
    }
}

/// Image `i` opens a duplicate cluster: it is linked to another image and to no
/// image before it.
pub open spec fn starts_cluster(hs: Seq<Seq<char>>, max: u32, i: usize) -> bool {
    &&& i < hs.len()
    &&& exists|j: usize| j < hs.len() && j != i && #[trigger] member_linked(hs, max, i, j)
    &&& forall|k: usize| k < i ==> !#[trigger] member_linked(hs, max, k, i)
}

/// The first members of the clusters are exactly the images that open a cluster.
proof fn lemma_first_members(hs: Seq<Seq<char>>, max: u32, cl: Seq<Seq<usize>>, i: usize)
    requires
        is_duplicate_clustering(hs, max, cl),
    ensures
        (exists|c: int| 0 <= c < cl.len() && #[trigger] cl[c][0] == i) <==> starts_cluster(hs, max, i),
{
    let n = hs.len();
    if exists|c: int| 0 <= c < cl.len() && #[trigger] cl[c][0] == i {
        let c = choose|c: int| 0 <= c < cl.len() && #[trigger] cl[c][0] == i;
        assert(cl[c].len() >= 2);
        let j = cl[c][1];
        assert(cl[c][0] < cl[c][1]);
        assert(j < n);
        assert(cl[c].contains(j));
        assert(member_linked(hs, max, i, j));
        assert(i < n);
        assert forall|k: usize| k < i implies !#[trigger] member_linked(hs, max, k, i) by {
            if member_linked(hs, max, k, i) {
                lemma_linked_sym(hs, max, k as int, i as int);
                assert(member_linked(hs, max, cl[c][0], k));
                assert(cl[c].contains(k));
                let m = choose|m: int| 0 <= m < cl[c].len() && cl[c][m] == k;
                if m > 0 {
                    assert(cl[c][0] < cl[c][m]);
                }
            }
        }
    }
    if starts_cluster(hs, max, i) {
        let j = choose|j: usize| j < hs.len() && j != i && #[trigger] member_linked(hs, max, i, j);
        assert(member_linked(hs, max, i, j));
        let c = choose|c: int| 0 <= c < cl.len() && (#[trigger] cl[c]).contains(i);
        let m = choose|m: int| 0 <= m < cl[c].len() && cl[c][m] == i;
        if m > 0 {
            let f = cl[c][0];
            assert(f < cl[c][m]);
            assert(cl[c].contains(i));
            assert(member_linked(hs, max, f, i));
        }
        assert(cl[c][0] == i);
    }
}

/// The duplicate clustering of a list of hashes is unique: any two clusterings
/// that meet `is_duplicate_clustering` for the same hashes and bound are equal.
pub proof fn lemma_clustering_unique(hs: Seq<Seq<char>>, max: u32, cl1: Seq<Seq<usize>>, cl2: Seq<Seq<usize>>)
    requires
        is_duplicate_clustering(hs, max, cl1),
        is_duplicate_clustering(hs, max, cl2),
    ensures
        cl1 == cl2,
{
    let n = hs.len();
    let f1 = Seq::new(cl1.len(), |c: int| cl1[c][0]);
    let f2 = Seq::new(cl2.len(), |c: int| cl2[c][0]);
    assert forall|x: usize| #![trigger f1.contains(x)] #![trigger f2.contains(x)] f1.contains(x) <==> f2.contains(x) by {
        lemma_first_members(hs, max, cl1, x);
        lemma_first_members(hs, max, cl2, x);
        if f1.contains(x) {
            let c = choose|c: int| 0 <= c < f1.len() && f1[c] == x;
            assert(cl1[c][0] == x);
            let d = choose|d: int| 0 <= d < cl2.len() && #[trigger] cl2[d][0] == x;
            assert(f2[d] == x);
        }
        if f2.contains(x) {
            let c = choose|c: int| 0 <= c < f2.len() && f2[c] == x;
            assert(cl2[c][0] == x);
            let d = choose|d: int| 0 <= d < cl1.len() && #[trigger] cl1[d][0] == x;
            assert(f1[d] == x);
        }
    }
    assert forall|k: int, l: int| 0 <= k < l < f1.len() implies #[trigger] f1[k] < #[trigger] f1[l] by {
        assert(cl1[k][0] < cl1[l][0]);
    }
    assert forall|k: int, l: int| 0 <= k < l < f2.len() implies #[trigger] f2[k] < #[trigger] f2[l] by {
        assert(cl2[k][0] < cl2[l][0]);
    }
    lemma_increasing_same_elements(f1, f2);
    assert forall|c: int| 0 <= c < cl1.len() implies #[trigger] cl1[c] == cl2[c] by {
        assert(f1[c] == f2[c]);
        assert(cl1[c][0] == cl2[c][0]);
        assert forall|x: usize| #![trigger cl1[c].contains(x)] #![trigger cl2[c].contains(x)] cl1[c].contains(x)
            <==> cl2[c].contains(x) by {
            if cl1[c].contains(x) {
                let m = choose|m: int| 0 <= m < cl1[c].len() && cl1[c][m] == x;
                assert(x < n);
                assert(member_linked(hs, max, cl1[c][0], x));
                assert(member_linked(hs, max, cl2[c][0], x));
                assert(cl2[c].contains(x));
            }
            if cl2[c].contains(x) {
                let m = choose|m: int| 0 <= m < cl2[c].len() && cl2[c][m] == x;
                assert(x < n);
                assert(member_linked(hs, max, cl2[c][0], x));
                assert(member_linked(hs, max, cl1[c][0], x));
                assert(cl1[c].contains(x));
            }
        }
        lemma_increasing_same_elements(cl1[c], cl2[c]);
    }
    assert(cl1 =~= cl2);
}
proof fn lemma_linked_wider(hs: Seq<Seq<char>>, d1: u32, d2: u32, i: int, j: int)
    requires
        d1 <= d2,
        linked(hs, d1, i, j),
    ensures
        linked(hs, d2, i, j),
{
    let p = choose|p: Seq<int>| #[trigger] is_near_chain(hs, d1, p) && p[0] == i && p.last() == j;
    assert forall|k: int| 0 <= k < p.len() - 1 implies #[trigger] chain_step(hs, d2, p, k) by {
        assert(chain_step(hs, d1, p, k));
    }
    assert(is_near_chain(hs, d2, p));
}

/// A larger maximum distance only merges clusters, never splits them: every cluster
/// found with `d1` lies inside a cluster found with a larger `d2`.
pub proof fn lemma_wider_distance_merges(
    hs: Seq<Seq<char>>,
    d1: u32,
    d2: u32,
    cl1: Seq<Seq<usize>>,
    cl2: Seq<Seq<usize>>,
    c: int,
)
    requires
        d1 <= d2,
        is_duplicate_clustering(hs, d1, cl1),
        is_duplicate_clustering(hs, d2, cl2),
        0 <= c < cl1.len(),
    ensures
        exists|e: int|
            #![trigger cl2[e]]
            0 <= e < cl2.len() && forall|x: usize| #[trigger] cl1[c].contains(x) ==> cl2[e].contains(x),
{
    let n = hs.len();
    let f = cl1[c][0];
    let j = cl1[c][1];
    assert(cl1[c].len() >= 2);
    assert(f < j);
    assert(j < n);
    assert(cl1[c].contains(j));
    assert(member_linked(hs, d1, f, j));
    lemma_linked_wider(hs, d1, d2, f as int, j as int);
    assert(member_linked(hs, d2, f, j));
    let e = choose|e: int| 0 <= e < cl2.len() && (#[trigger] cl2[e]).contains(f);
    assert(member_linked(hs, d2, cl2[e][0], f));
    assert forall|x: usize| #[trigger] cl1[c].contains(x) implies cl2[e].contains(x) by {
        let m = choose|m: int| 0 <= m < cl1[c].len() && cl1[c][m] == x;
        assert(x < n);
        assert(member_linked(hs, d1, f, x));
        lemma_linked_wider(hs, d1, d2, f as int, x as int);
        lemma_linked_trans(hs, d2, cl2[e][0] as int, f as int, x as int);
        assert(member_linked(hs, d2, cl2[e][0], x));
    }
}

/// Disjoint-set forest over `0..n`. `root` is the representative of each
/// element and `height` a measure that strictly decreases along parent links.
struct UnionFind {
    parent: Vec<usize>,
    root: Ghost<Seq<int>>,
    height: Ghost<Seq<nat>>,
}

impl UnionFind {
    spec fn n(&self) -> int {
        self.parent@.len() as int
    }

    spec fn wf(&self) -> bool {
        let n = self.n();
        &&& self.root@.len() == n
        &&& self.height@.len() == n
        &&& forall|x: int| #![trigger self.parent@[x]] 0 <= x < n ==> {
            &&& self.parent@[x] < n
            &&& self.root@[self.parent@[x] as int] == self.root@[x]
            &&& self.parent@[x] == x ==> self.root@[x] == x
            &&& self.parent@[x] != x ==> self.height@[self.parent@[x] as int] < self.height@[x]
        }
        &&& forall|x: int| #![trigger self.root@[x]] 0 <= x < n ==> {
            &&& 0 <= self.root@[x] < n
            &&& self.parent@[self.root@[x]] == self.root@[x]
            &&& self.height@[self.root@[x]] <= self.height@[x]
        }
    }

    fn new(n: usize) -> (uf: Self)
        ensures
            uf.wf(),
            uf.n() == n,
            uf.root@ == Seq::new(n as nat, |x: int| x),
    {
        let mut parent: Vec<usize> = Vec::new();
        let mut i: usize = 0;
        while i < n
            invariant
                i <= n,
                parent@.len() == i,
                forall|x: int| 0 <= x < i ==> parent@[x] == x,
            decreases n - i,
        {
            parent.push(i);
            i = i + 1;
        }
        UnionFind {
            parent,
            root: Ghost(Seq::new(n as nat, |x: int| x)),
            height: Ghost(Seq::new(n as nat, |x: int| 0nat)),
        }
    }

    /// The representative of `x`; shortens the path from `x` on the way.
    fn find(&mut self, x: usize) -> (r: usize)
        requires
            old(self).wf(),
            x < old(self).n(),
        ensures
            final(self).wf(),
            final(self).n() == old(self).n(),
            final(self).root@ == old(self).root@,
            final(self).height@ == old(self).height@,
            r == old(self).root@[x as int],
        decreases old(self).height@[x as int],
    {
        let p = self.parent[x];
        if p == x {
            return x;
        }
        assert(self.height@[p as int] < self.height@[x as int]);
        let r = self.find(p);
        assert(self.root@[p as int] == self.root@[x as int]);
        assert(self.height@[r as int] <= self.height@[p as int]);
        self.parent.set(x, r);
        proof {
            assert forall|y: int| #![trigger self.parent@[y]] 0 <= y < self.n() implies {
                &&& self.parent@[y] < self.n()
                &&& self.root@[self.parent@[y] as int] == self.root@[y]
                &&& self.parent@[y] == y ==> self.root@[y] == y
                &&& self.parent@[y] != y ==> self.height@[self.parent@[y] as int] < self.height@[y]
            } by {
                if y != x {
                    assert(self.parent@[y] == old(self).parent@[y] || y != x);
                }
            }
        }
        r
    }

    /// Merges the classes of `i` and `j`: every member of the class of `i` takes
    /// the representative of `j`.
    fn union(&mut self, i: usize, j: usize)
        requires
            old(self).wf(),
            i < old(self).n(),
            j < old(self).n(),
        ensures
            final(self).wf(),
            final(self).n() == old(self).n(),
            final(self).root@ == Seq::new(
                old(self).n() as nat,
                |x: int|
                    if old(self).root@[x] == old(self).root@[i as int] {
                        old(self).root@[j as int]
                    } else {
                        old(self).root@[x]
                    },
            ),
    {
        let ghost n = self.n();
        let ghost old_root = self.root@;
        let ri = self.find(i);
        let rj = self.find(j);
        if ri == rj {
            assert(self.root@ =~= Seq::new(
                n as nat,
                |x: int| if old_root[x] == old_root[i as int] { old_root[j as int] } else { old_root[x] },
            ));
            return;
        }
        let ghost old_height = self.height@;
        let ghost hj = old_height[rj as int];
        self.parent.set(ri, rj);
        self.root = Ghost(
            Seq::new(
                n as nat,
                |x: int| if old_root[x] == ri as int { rj as int } else { old_root[x] },
            ),
        );
        self.height = Ghost(
            Seq::new(
                n as nat,
                |x: int| if old_root[x] == ri as int { old_height[x] + hj + 1 } else { old_height[x] },
            ),
        );
        proof {
            assert(old_root[ri as int] == ri);
            assert(old_root[rj as int] == rj);
            assert(self.root@ =~= Seq::new(
                n as nat,
                |x: int| if old_root[x] == old_root[i as int] { old_root[j as int] } else { old_root[x] },
            ));
        }
    }
}

/// Groups `0..n` by representative: the result lists every class with at least two
/// members, each in increasing order, the classes in increasing order of their
/// first member. A `Vec` indexed by representative stands where a `HashMap` could:
/// it gives this fixed order, where a `HashMap` is walked in an order that its
/// per-process random seed decides.
fn collect_classes(roots: &Vec<usize>) -> (cl: Vec<Vec<usize>>)
    requires
        forall|x: int| 0 <= x < roots@.len() ==> (#[trigger] roots@[x]) < roots@.len(),
    ensures
        ({
            let n = roots@.len();
            let c = index_lists(cl@);
            &&& forall|i: int| 0 <= i < c.len() ==> (#[trigger] c[i]).len() >= 2
            &&& forall|i: int, k: int| 0 <= i < c.len() && 0 <= k < c[i].len() ==> (#[trigger] c[i][k]) < n
            &&& forall|i: int, k: int, l: int|
                0 <= i < c.len() && 0 <= k < l < c[i].len() ==> #[trigger] c[i][k] < #[trigger] c[i][l]
            &&& forall|i: int, k: int, j: usize|
                #![trigger c[i][k], c[i].contains(j)]
                0 <= i < c.len() && 0 <= k < c[i].len() && j < n ==> (roots@[j as int] == roots@[c[i][k] as int]
                    <==> c[i].contains(j))
            &&& forall|i: int, d: int| 0 <= i < d < c.len() ==> #[trigger] c[i][0] < #[trigger] c[d][0]
            &&& forall|x: usize, y: usize|
                x < n && y < n && x != y && #[trigger] roots@[x as int] == #[trigger] roots@[y as int] ==> exists|i: int|
                    0 <= i < c.len() && (#[trigger] c[i]).contains(x)
        }),
{
    let n = roots.len();
    let mut members: Vec<Vec<usize>> = Vec::new();
    let mut r: usize = 0;
    while r < n
        invariant
            r <= n,
            members@.len() == r,
            forall|q: int| 0 <= q < r ==> (#[trigger] members@[q])@.len() == 0,
        decreases n - r,
    {
        members.push(Vec::new());
        r = r + 1;
    }
    let mut x: usize = 0;
    while x < n
        invariant
            n == roots@.len(),
            x <= n,
            members@.len() == n,
            forall|y: int| 0 <= y < n ==> (#[trigger] roots@[y]) < n,
            forall|q: int, k: int|
                0 <= q < n && 0 <= k < members@[q]@.len() ==> (#[trigger] members@[q]@[k]) < x
                    && roots@[members@[q]@[k] as int] == q,
            forall|q: int, k: int, l: int|
                0 <= q < n && 0 <= k < l < members@[q]@.len() ==> #[trigger] members@[q]@[k]
                    < #[trigger] members@[q]@[l],
            forall|y: int| 0 <= y < x ==> members@[roots@[y] as int]@.contains(y as usize),
        decreases n - x,
    {
        let q = roots[x];
        let ghost before = members@;
        members[q].push(x);
        proof {
            assert(members@[q as int]@ == before[q as int]@.push(x));
            assert forall|y: int| 0 <= y < x + 1 implies members@[roots@[y] as int]@.contains(
                y as usize,
            ) by {
                if y == x {
                    assert(members@[q as int]@[members@[q as int]@.len() - 1] == x);
                } else {
                    let q2 = roots@[y] as int;
                    let k = choose|k: int| 0 <= k < before[q2]@.len() && before[q2]@[k] == y as usize;
                    assert(members@[q2]@[k] == y as usize);
                }
            }
        }
        x = x + 1;
    }
    let mut cl: Vec<Vec<usize>> = Vec::new();
    let mut x: usize = 0;
    while x < n
        invariant
            n == roots@.len(),
            x <= n,
            members@.len() == n,
            forall|y: int| 0 <= y < n ==> (#[trigger] roots@[y]) < n,
            forall|q: int, k: int|
                0 <= q < n && 0 <= k < members@[q]@.len() ==> (#[trigger] members@[q]@[k]) < n
                    && roots@[members@[q]@[k] as int] == q,
            forall|q: int, k: int, l: int|
                0 <= q < n && 0 <= k < l < members@[q]@.len() ==> #[trigger] members@[q]@[k]
                    < #[trigger] members@[q]@[l],
            forall|y: int| 0 <= y < n ==> members@[roots@[y] as int]@.contains(y as usize),
            forall|i: int| #![trigger cl@[i]] 0 <= i < cl@.len() ==> {
                &&& cl@[i]@.len() >= 2
                &&& cl@[i]@[0] < x
                &&& cl@[i]@ == members@[roots@[cl@[i]@[0] as int] as int]@
            },
            forall|i: int, d: int| 0 <= i < d < cl@.len() ==> #[trigger] cl@[i]@[0] < #[trigger] cl@[d]@[0],
            forall|y: int|
                #![trigger members@[roots@[y] as int]]
                0 <= y < x && members@[roots@[y] as int]@.len() >= 2 && members@[roots@[y] as int]@[0]
                    == y ==> exists|i: int| 0 <= i < cl@.len() && cl@[i]@ == members@[roots@[y] as int]@,
        decreases n - x,
    {
        let q = roots[x];
        if members[q].len() >= 2 && members[q][0] == x {
            let bucket = copy_indices(&members[q]);
            let ghost before = cl@;
            cl.push(bucket);
            proof {
                assert(cl@[before.len() as int] == bucket);
                assert forall|y: int|
                    #![trigger members@[roots@[y] as int]]
                    0 <= y < x + 1 && members@[roots@[y] as int]@.len() >= 2 && members@[roots@[y]
                        as int]@[0] == y implies exists|i: int|
                    0 <= i < cl@.len() && cl@[i]@ == members@[roots@[y] as int]@ by {
                    if y < x {
                        let i = choose|i: int|
                            0 <= i < before.len() && before[i]@ == members@[roots@[y] as int]@;
                        assert(cl@[i] == before[i]);
                    } else {
                        assert(cl@[before.len() as int]@ == members@[roots@[y] as int]@);
                    }
                }
            }
        }
        x = x + 1;
    }
    proof {
        let c = index_lists(cl@);
        assert forall|i: int| 0 <= i < c.len() implies c[i] == cl@[i]@ by {}
        assert forall|i: int, k: int, j: usize|
            #![trigger c[i][k], c[i].contains(j)]
            0 <= i < c.len() && 0 <= k < c[i].len() && j < n implies (roots@[j as int] == roots@[c[i][k] as int]
                <==> c[i].contains(j)) by {
            let q = roots@[cl@[i]@[0] as int] as int;
            assert(c[i] == members@[q]@);
            assert(roots@[c[i][k] as int] == q);
            if roots@[j as int] == q {
                assert(members@[roots@[j as int] as int]@.contains(j));
            }
        }
        assert forall|a: usize, b: usize|
            a < n && b < n && a != b && #[trigger] roots@[a as int] == #[trigger] roots@[b as int] implies exists|i: int|
                0 <= i < c.len() && (#[trigger] c[i]).contains(a) by {
            let q = roots@[a as int] as int;
            assert(members@[roots@[a as int] as int]@.contains(a));
            assert(members@[roots@[b as int] as int]@.contains(b));
            let ka = choose|k: int| 0 <= k < members@[q]@.len() && members@[q]@[k] == a;
            let kb = choose|k: int| 0 <= k < members@[q]@.len() && members@[q]@[k] == b;
            assert(members@[q]@.len() >= 2);
            let f = members@[q]@[0];
            assert(roots@[f as int] == q);
            let i = choose|i: int| 0 <= i < cl@.len() && cl@[i]@ == members@[roots@[f as int] as int]@;
            assert(c[i] == cl@[i]@);
            assert(c[i][ka] == a);
        }
    }
    cl
}

/// A copy of a list of indices.
fn copy_indices(v: &Vec<usize>) -> (r: Vec<usize>)
    ensures
        r@ == v@,
{
    let mut r: Vec<usize> = Vec::new();
    let mut k: usize = 0;
    while k < v.len()
        invariant
            k <= v@.len(),
            r@ == v@.subrange(0, k as int),
        decreases v@.len() - k,
    {
        r.push(v[k]);
        k = k + 1;
    }
    assert(r@ =~= v@);
    r
}

/// A hash text whose distances fit in a `u32`: when it decodes, eight bits per
/// decoded byte fit there.
pub open spec fn hash_text_fits(t: Seq<char>) -> bool {
    spec_hex_decode(encode_utf8(t)) matches Some(x) ==> 8 * x.len() <= u32::MAX
}

/// Every hash text is short enough for its distances to fit in a `u32`.
pub open spec fn hashes_bounded(hashes: Seq<String>) -> bool {
    forall|k: int| 0 <= k < hashes.len() ==> hash_text_fits((#[trigger] hashes[k])@)
}

/// Representative of each image's class, where images are linked through chains of
/// near duplicates (hamming distance at most `max_distance`).
fn class_roots(hashes: &Vec<String>, max_distance: u32) -> (roots: Vec<usize>)
    requires
        hashes_bounded(hashes@),
    ensures
        roots@.len() == hashes@.len(),
        forall|x: int| 0 <= x < roots@.len() ==> (#[trigger] roots@[x]) < roots@.len(),
        forall|a: int, b: int|
            #![trigger roots@[a], roots@[b]]
            0 <= a < roots@.len() && 0 <= b < roots@.len() ==> (linked(
                hash_texts(hashes@),
                max_distance,
                a,
                b,
            ) <==> roots@[a] == roots@[b]),
{
    let n = hashes.len();
    let ghost hs = hash_texts(hashes@);
    let ghost max = max_distance;
    let mut uf = UnionFind::new(n);
    proof {
        assert forall|x: int| 0 <= x < n implies linked(hs, max, x, #[trigger] uf.root@[x]) by {
            lemma_linked_refl(hs, max, x);
        }
    }
    let mut i: usize = 0;
    while i < n
        invariant
            n == hashes@.len(),
            hs == hash_texts(hashes@),
            max == max_distance,
            hashes_bounded(hashes@),
            i <= n,
            uf.wf(),
            uf.n() == n,
            forall|x: int| 0 <= x < n ==> linked(hs, max, x, #[trigger] uf.root@[x]),
            forall|a: int, b: int|
                0 <= a < i && a < b < n && #[trigger] near(hs, max, a, b) ==> uf.root@[a] == uf.root@[b],
        decreases n - i,
    {
        let mut j: usize = i + 1;
        while j < n
            invariant
                n == hashes@.len(),
                hs == hash_texts(hashes@),
                max == max_distance,
                hashes_bounded(hashes@),
                i < n,
                i + 1 <= j <= n,
                uf.wf(),
                uf.n() == n,
                forall|x: int| 0 <= x < n ==> linked(hs, max, x, #[trigger] uf.root@[x]),
                forall|a: int, b: int|
                    0 <= a < i && a < b < n && #[trigger] near(hs, max, a, b) ==> uf.root@[a]
                        == uf.root@[b],
                forall|b: int| i < b < j && #[trigger] near(hs, max, i as int, b) ==> uf.root@[i as int] == uf.root@[b],
            decreases n - j,
        {
            let a_text = hashes[i].as_str();
            let b_text = hashes[j].as_str();
            proof {
                assert(hs[i as int] == hashes@[i as int]@);
                assert(hs[j as int] == hashes@[j as int]@);
                assert(hash_text_fits(hashes@[i as int]@));
                lemma_distance_at_most(a_text@, b_text@);
            }
            let dist = hamming_distance(a_text, b_text);
            match dist {
                Some(d) => {
                    if d <= max_distance {
                        let ghost old_root = uf.root@;
                        proof {
                            assert(near(hs, max, i as int, j as int));
                        }
                        uf.union(i, j);
                        proof {
                            let ri = old_root[i as int];
                            let rj = old_root[j as int];
                            assert forall|x: int| 0 <= x < n implies linked(
                                hs,
                                max,
                                x,
                                #[trigger] uf.root@[x],
                            ) by {
                                assert(linked(hs, max, x, old_root[x]));
                                if old_root[x] == ri {
                                    assert(linked(hs, max, i as int, ri));
                                    lemma_linked_sym(hs, max, i as int, ri);
                                    lemma_linked_near(hs, max, i as int, j as int);
                                    assert(linked(hs, max, j as int, rj));
                                    lemma_linked_trans(hs, max, x, ri, i as int);
                                    lemma_linked_trans(hs, max, x, i as int, j as int);
                                    lemma_linked_trans(hs, max, x, j as int, rj);
                                }
                            }
                        }
                    }
                },
                None => {},
            }
            j = j + 1;
        }
        i = i + 1;
    }
    let ghost final_root = uf.root@;
    proof {
        assert forall|a: int, b: int|
            0 <= a < hs.len() && 0 <= b < hs.len() && #[trigger] near(hs, max, a, b) implies final_root[a]
                == final_root[b] by {
            if b < a {
                lemma_near_symmetric(hs, max, a, b);
            }
        }
    }
    let mut roots: Vec<usize> = Vec::new();
    let mut x: usize = 0;
    while x < n
        invariant
            x <= n,
            uf.wf(),
            uf.n() == n,
            uf.root@ == final_root,
            roots@.len() == x,
            forall|y: int| 0 <= y < x ==> roots@[y] == final_root[y],
        decreases n - x,
    {
        let r = uf.find(x);
        roots.push(r);
        x = x + 1;
    }
    proof {
        assert(hs.len() == n);
        assert forall|y: int| 0 <= y < n implies (#[trigger] roots@[y]) < n by {
            assert(0 <= uf.root@[y] < n);
        }
        assert forall|a: int, b: int|
            #![trigger roots@[a], roots@[b]]
            0 <= a < n && 0 <= b < n implies (linked(hs, max, a, b) <==> roots@[a] == roots@[b]) by {
            if linked(hs, max, a, b) {
                let p = choose|p: Seq<int>| #[trigger] is_near_chain(hs, max, p) && p[0] == a && p.last() == b;
                lemma_chain_same_root(hs, max, final_root, p);
            }
            if roots@[a] == roots@[b] {
                let r = final_root[a];
                assert(linked(hs, max, a, final_root[a]));
                assert(linked(hs, max, b, final_root[b]));
                lemma_linked_sym(hs, max, b, r);
                lemma_linked_trans(hs, max, a, r, b);
            }
        }
    }
    roots
}

/// Clusters of near-duplicate images: classes of images joined by chains of
/// hashes at most `max_distance` bits apart, keeping only classes of two or more.
pub fn cluster_indices(hashes: &Vec<String>, max_distance: u32) -> (clusters: Vec<Vec<usize>>)
    requires
        hashes_bounded(hashes@),
    ensures
        is_duplicate_clustering(hash_texts(hashes@), max_distance, index_lists(clusters@)),
{
    let roots = class_roots(hashes, max_distance);
    let clusters = collect_classes(&roots);
    proof {
        let hs = hash_texts(hashes@);
        let c = index_lists(clusters@);
        assert(hs.len() == roots@.len());
        assert forall|i: int, k: int, j: usize|
            #![trigger member_linked(hs, max_distance, c[i][k], j)]
            #![trigger c[i][k], c[i].contains(j)]
            0 <= i < c.len() && 0 <= k < c[i].len() && j < hs.len() implies (member_linked(
                hs,
                max_distance,
                c[i][k],
                j,
            ) <==> c[i].contains(j)) by {
            assert(roots@[j as int] == roots@[c[i][k] as int] <==> c[i].contains(j));
            assert(linked(hs, max_distance, c[i][k] as int, j as int) <==> roots@[c[i][k] as int]
                == roots@[j as int]);
        }
        assert forall|a: usize, b: usize|
            #![trigger member_linked(hs, max_distance, a, b)]
            a < hs.len() && b < hs.len() && a != b && member_linked(hs, max_distance, a, b) implies exists|i: int|
                0 <= i < c.len() && (#[trigger] c[i]).contains(a) by {
            assert(roots@[a as int] == roots@[b as int]);
        }
    }
    clusters
}

/// The hash text used for an image when clustering: its perceptual hash, or the
/// empty text when it has none.
pub open spec fn hash_text_of(img: DbImage) -> Seq<char> {
    match img.perceptual_hash {
        Some(h) => h@,
        None => Seq::empty(),
    }
}

/// The hash texts of a list of images.
pub open spec fn image_hash_texts(images: Seq<DbImage>) -> Seq<Seq<char>> {
    images.map_values(|img: DbImage| hash_text_of(img))
}

/// Pixel count of an image, an unknown side counting as zero.
pub open spec fn resolution(img: DbImage) -> int {
    let w: int = match img.width_px {
        Some(w) => w as int,
        None => 0,
    };
    let h: int = match img.height_px {
        Some(h) => h as int,
        None => 0,
    };
    w * h
}

/// The hash texts of all images are short enough for their distances to fit in a `u32`.
pub open spec fn image_hashes_bounded(images: Seq<DbImage>) -> bool {
    forall|k: int| 0 <= k < images.len() ==> hash_text_fits(hash_text_of(#[trigger] images[k]))
}

/// Whether the hash texts of all images are short enough for `plan_rebuild`.
pub fn image_hashes_fit(images: &Vec<DbImage>) -> (r: bool)
    ensures
        r == image_hashes_bounded(images@),
{
    let mut k: usize = 0;
    while k < images.len()
        invariant
            k <= images@.len(),
            forall|q: int| 0 <= q < k ==> hash_text_fits(hash_text_of(#[trigger] images@[q])),
        decreases images@.len() - k,
    {
        if let Some(h) = &images[k].perceptual_hash {
            if let Some(bytes) = hex_decode(h.as_str()) {
                if bytes.len() > 536_870_911 {
                    return false;
                }
            }
        }
        k = k + 1;
    }
    true
}

/// Every image that belongs to a duplicate cluster has a pixel count that fits in an `i64`.
pub open spec fn clustered_resolutions_fit(images: Seq<DbImage>, max: u32) -> bool {
    forall|i: usize, j: usize|
        #![trigger member_linked(image_hash_texts(images), max, i, j)]
        i < images.len() && j < images.len() && i != j && member_linked(image_hash_texts(images), max, i, j)
            ==> i64::MIN <= resolution(images[i as int]) <= i64::MAX
}

/// Position `k` of `members` holds the last image of greatest pixel count.
pub open spec fn is_keeper_position(images: Seq<DbImage>, members: Seq<usize>, k: int) -> bool {
    &&& 0 <= k < members.len()
    &&& forall|l: int|
        0 <= l < members.len() ==> resolution(images[(#[trigger] members[l]) as int]) <= resolution(
            images[members[k] as int],
        )
    &&& forall|l: int|
        k < l < members.len() ==> resolution(images[(#[trigger] members[l]) as int]) < resolution(
            images[members[k] as int],
        )
}

/// Label of the duplicate cluster at position `k` (counting from zero).
pub open spec fn duplicate_label(k: nat) -> Seq<char> {
    "Duplicate Cluster #"@ + spec_decimal(k + 1)
}

/// A duplicate-cluster group to be stored: its label, its images, and the image
/// suggested as the one to keep.
#[derive(Debug, Clone, PartialEq)]
pub struct DuplicateGroupPlan {
    pub label: String,
    pub image_ids: Vec<i64>,
    pub keeper_id: i64,
}

/// `plan` stores the cluster `members` found at position `k`.
pub open spec fn plan_matches(
    images: Seq<DbImage>,
    members: Seq<usize>,
    k: int,
    plan: DuplicateGroupPlan,
) -> bool {
    &&& plan.label@ == duplicate_label(k as nat)
    &&& plan.image_ids@ == members.map_values(|i: usize| images[i as int].id)
    &&& exists|pos: int|
        is_keeper_position(images, members, pos) && plan.keeper_id == images[members[pos] as int].id
}

/// Position in `members` of the last image with the greatest pixel count.
pub fn keeper_position(images: &Vec<DbImage>, members: &Vec<usize>) -> (k: usize)
    requires
        members@.len() >= 1,
        forall|l: int| 0 <= l < members@.len() ==> (#[trigger] members@[l]) < images@.len(),
        forall|l: int|
            0 <= l < members@.len() ==> i64::MIN <= resolution(images@[(#[trigger] members@[l]) as int])
                <= i64::MAX,
    ensures
        is_keeper_position(images@, members@, k as int),
        forall|l: int|
            0 <= l < members@.len() ==> images@[(#[trigger] members@[l]) as int].width_px.unwrap_or(0)
                * images@[members@[l] as int].height_px.unwrap_or(0) <= images@[members@[k as int] as int].width_px.unwrap_or(0)
                * images@[members@[k as int] as int].height_px.unwrap_or(0),
{
    let mut best: usize = 0;
    let mut best_res = pixel_count(&images[members[0]]);
    let mut l: usize = 1;
    while l < members.len()
        invariant
            1 <= l <= members@.len(),
            best < l,
            forall|q: int| 0 <= q < members@.len() ==> (#[trigger] members@[q]) < images@.len(),
            forall|q: int|
                0 <= q < members@.len() ==> i64::MIN <= resolution(images@[(#[trigger] members@[q]) as int])
                    <= i64::MAX,
            best_res == resolution(images@[members@[best as int] as int]),
            forall|q: int|
                0 <= q < l ==> resolution(images@[(#[trigger] members@[q]) as int]) <= best_res,
            forall|q: int|
                best < q < l ==> resolution(images@[(#[trigger] members@[q]) as int]) < best_res,
        decreases members@.len() - l,
    {
        let r = pixel_count(&images[members[l]]);
        if r >= best_res {
            best = l;
            best_res = r;
        }
        l = l + 1;
    }
    proof {
        lemma_keeper_has_greatest_area(images@, members@, best as int);
    }
    best
}

/// Pixel count of an image, an unknown side counting as zero.
fn pixel_count(img: &DbImage) -> (r: i64)
    requires
        i64::MIN <= resolution(*img) <= i64::MAX,
    ensures
        r == resolution(*img),
        r == img.width_px.unwrap_or(0) * img.height_px.unwrap_or(0),
{
    let w: i64 = match img.width_px {
        Some(w) => w,
        None => 0,
    };
    let h: i64 = match img.height_px {
        Some(h) => h,
        None => 0,
    };
    w * h
}

/// Label of the `number`-th duplicate cluster.
fn duplicate_cluster_label(k: usize) -> (s: String)
    requires
        k < usize::MAX,
    ensures
        s@ == duplicate_label(k as nat),
{
    let mut s = String::from_str("Duplicate Cluster #");
    let number = decimal((k + 1) as u64);
    s.append(number.as_str());
    s
}

/// The duplicate-cluster groups to store for `images`: near-duplicate clusters
/// (hashes at most `max_distance` bits apart, joined transitively), each with its
/// label and the image of greatest pixel count as keeper.
pub fn plan_rebuild(images: &Vec<DbImage>, max_distance: u32) -> (plans: Vec<DuplicateGroupPlan>)
    requires
        image_hashes_bounded(images@),
        clustered_resolutions_fit(images@, max_distance),
    ensures
        exists|cl: Seq<Seq<usize>>|
            #![trigger is_duplicate_clustering(image_hash_texts(images@), max_distance, cl)]
            is_duplicate_clustering(image_hash_texts(images@), max_distance, cl) && plans@.len()
                == cl.len() && forall|k: int|
                0 <= k < cl.len() ==> plan_matches(images@, cl[k], k, #[trigger] plans@[k]),
{
    let n = images.len();
    let mut hashes: Vec<String> = Vec::new();
    let mut k: usize = 0;
    while k < n
        invariant
            n == images@.len(),
            k <= n,
            hashes@.len() == k,
            forall|q: int| 0 <= q < k ==> (#[trigger] hashes@[q])@ == hash_text_of(images@[q]),
        decreases n - k,
    {
        let h = match &images[k].perceptual_hash {
            Some(h) => h.clone(),
            None => String::new(),
        };
        hashes.push(h);
        k = k + 1;
    }
    let ghost hs = image_hash_texts(images@);
    proof {
        assert(hash_texts(hashes@) =~= hs);
        assert forall|q: int| 0 <= q < hashes@.len() implies hash_text_fits((#[trigger] hashes@[q])@) by {
            assert(hash_text_fits(hash_text_of(images@[q])));
        }
    }
    let clusters = cluster_indices(&hashes, max_distance);
    let ghost cl = index_lists(clusters@);
    let mut plans: Vec<DuplicateGroupPlan> = Vec::new();
    let mut c: usize = 0;
    while c < clusters.len()
        invariant
            n == images@.len(),
            hs == image_hash_texts(images@),
            cl == index_lists(clusters@),
            is_duplicate_clustering(hs, max_distance, cl),
            clustered_resolutions_fit(images@, max_distance),
            c <= clusters@.len(),
            plans@.len() == c,
            forall|q: int| 0 <= q < c ==> plan_matches(images@, cl[q], q, #[trigger] plans@[q]),
        decreases clusters@.len() - c,
    {
        let members = &clusters[c];
        proof {
            assert(cl[c as int] == members@);
            assert forall|l: int| 0 <= l < members@.len() implies i64::MIN <= resolution(
                images@[(#[trigger] members@[l]) as int],
            ) <= i64::MAX by {
                let other: int = if l == 0 { 1 } else { 0 };
                let m = members@[l];
                let o = members@[other];
                assert(cl[c as int][other] == o);
                assert(cl[c as int][l] == m);
                assert(cl[c as int].contains(o));
                assert(member_linked(hs, max_distance, m, o));
                if l == 0 {
                    assert(m < o);
                } else {
                    assert(o < m);
                }
            }
        }
        let mut ids: Vec<i64> = Vec::new();
        let mut l: usize = 0;
        while l < members.len()
            invariant
                n == images@.len(),
                l <= members@.len(),
                forall|q: int| 0 <= q < members@.len() ==> (#[trigger] members@[q]) < n,
                ids@ == members@.subrange(0, l as int).map_values(|i: usize| images@[i as int].id),
            decreases members@.len() - l,
        {
            ids.push(images[members[l]].id);
            l = l + 1;
            assert(ids@ =~= members@.subrange(0, l as int).map_values(|i: usize| images@[i as int].id));
        }
        assert(members@.subrange(0, members@.len() as int) =~= members@);
        let pos = keeper_position(images, members);
        let plan = DuplicateGroupPlan {
            label: duplicate_cluster_label(c),
            image_ids: ids,
            keeper_id: images[members[pos]].id,
        };
        plans.push(plan);
        proof {
            assert(plan_matches(images@, cl[c as int], c as int, plans@[c as int]));
        }
        c = c + 1;
    }
    plans
}

/// The suggested keeper of a cluster has the greatest area, width times height
/// (an unknown side counting as zero), among the cluster's images.
pub proof fn lemma_keeper_has_greatest_area(images: Seq<DbImage>, members: Seq<usize>, k: int)
    requires
        is_keeper_position(images, members, k),
    ensures
        forall|l: int|
            0 <= l < members.len() ==> images[(#[trigger] members[l]) as int].width_px.unwrap_or(0)
                * images[members[l] as int].height_px.unwrap_or(0) <= images[members[k] as int].width_px.unwrap_or(0)
                * images[members[k] as int].height_px.unwrap_or(0),
{
    assert forall|l: int| 0 <= l < members.len() implies images[(#[trigger] members[l]) as int].width_px.unwrap_or(0)
        * images[members[l] as int].height_px.unwrap_or(0) <= images[members[k] as int].width_px.unwrap_or(0)
        * images[members[k] as int].height_px.unwrap_or(0) by {
        assert(resolution(images[members[l] as int]) <= resolution(images[members[k] as int]));
    }
}

} // verus!
