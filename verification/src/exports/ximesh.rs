//! The collision-mesh export: every distinct vertex of a zone's mesh
//! entries once, in key order, and each triangle as three indexes into them.
use vstd::prelude::*;
use crate::bytes::{push_u32, u32_bytes};
use crate::order::{sort_by_num, sorted_by_num, NumKey};

verus! {

broadcast use vstd::seq_lib::group_to_multiset_ensures;

/// A vertex of a collision mesh: the bit patterns of its three `f32`
/// coordinates.
#[derive(Clone, Copy, Debug, PartialEq, Eq, Structural)]
pub struct MeshVertex {
    pub x: u32,
    pub y: u32,
    pub z: u32,
}

/// A triangle by the positions of its corners among its entry's vertices.
#[derive(Clone, Copy, Debug, PartialEq, Eq, Structural)]
pub struct MeshTriangle {
    pub vertex1_idx: u32,
    pub vertex2_idx: u32,
    pub vertex3_idx: u32,
}

/// One mesh entry: its vertices and its triangles.
#[derive(Clone, Debug)]
pub struct MeshEntry {
    pub vertices: Vec<MeshVertex>,
    pub triangles: Vec<MeshTriangle>,
}

/// `x` with its four bytes in reverse order: its little-endian bytes read as
/// a big-endian number.
pub open spec fn swapped(x: u32) -> u32 {
    ((x & 0xff) << 24u32) | (((x >> 8u32) & 0xff) << 16u32) | (((x >> 16u32) & 0xff) << 8u32) | (x >> 24u32)
}

/// The key that orders vertices: the little-endian bytes of x, y and z, in
/// that order, read as one big-endian number.
pub open spec fn vertex_key(v: MeshVertex) -> u128 {
    ((swapped(v.x) as u128) << 64u128) | ((swapped(v.y) as u128) << 32u128) | (swapped(v.z) as u128)
}

impl NumKey for MeshVertex {
    open spec fn num_key(&self) -> u128 {
        vertex_key(*self)
    }

    fn key_num(&self) -> (k: u128) {
        let sx = ((self.x & 0xff) << 24u32) | (((self.x >> 8u32) & 0xff) << 16u32) | (((self.x >> 16u32)
            & 0xff) << 8u32) | (self.x >> 24u32);
        let sy = ((self.y & 0xff) << 24u32) | (((self.y >> 8u32) & 0xff) << 16u32) | (((self.y >> 16u32)
            & 0xff) << 8u32) | (self.y >> 24u32);
        let sz = ((self.z & 0xff) << 24u32) | (((self.z >> 8u32) & 0xff) << 16u32) | (((self.z >> 16u32)
            & 0xff) << 8u32) | (self.z >> 24u32);
        ((sx as u128) << 64u128) | ((sy as u128) << 32u128) | (sz as u128)
    }
}

/// Different vertices have different keys.
pub proof fn lemma_vertex_key_injective(v: MeshVertex, w: MeshVertex)
    requires
        vertex_key(v) == vertex_key(w),
    ensures
        v == w,
{
    let (a, b, c) = (swapped(v.x), swapped(v.y), swapped(v.z));
    let (d, e, f) = (swapped(w.x), swapped(w.y), swapped(w.z));
    assert(a == d && b == e && c == f) by (bit_vector)
        requires
            ((a as u128) << 64u128) | ((b as u128) << 32u128) | (c as u128) == ((d as u128) << 64u128) | ((
            e as u128) << 32u128) | (f as u128),
    ;
    let (x1, y1, z1, x2, y2, z2) = (v.x, v.y, v.z, w.x, w.y, w.z);
    assert(x1 == x2) by (bit_vector)
        requires
            ((x1 & 0xff) << 24u32) | (((x1 >> 8u32) & 0xff) << 16u32) | (((x1 >> 16u32) & 0xff) << 8u32) | (x1
                >> 24u32) == ((x2 & 0xff) << 24u32) | (((x2 >> 8u32) & 0xff) << 16u32) | (((x2 >> 16u32)
                & 0xff) << 8u32) | (x2 >> 24u32),
    ;
    assert(y1 == y2) by (bit_vector)
        requires
            ((y1 & 0xff) << 24u32) | (((y1 >> 8u32) & 0xff) << 16u32) | (((y1 >> 16u32) & 0xff) << 8u32) | (y1
                >> 24u32) == ((y2 & 0xff) << 24u32) | (((y2 >> 8u32) & 0xff) << 16u32) | (((y2 >> 16u32)
                & 0xff) << 8u32) | (y2 >> 24u32),
    ;
    assert(z1 == z2) by (bit_vector)
        requires
            ((z1 & 0xff) << 24u32) | (((z1 >> 8u32) & 0xff) << 16u32) | (((z1 >> 16u32) & 0xff) << 8u32) | (z1
                >> 24u32) == ((z2 & 0xff) << 24u32) | (((z2 >> 8u32) & 0xff) << 16u32) | (((z2 >> 16u32)
                & 0xff) << 8u32) | (z2 >> 24u32),
    ;
}

/// Whether the keys of `d` strictly increase.
pub open spec fn strictly_increasing(d: Seq<MeshVertex>) -> bool {
    forall|a: int, b: int| 0 <= a < b < d.len() ==> vertex_key(#[trigger] d[a]) < vertex_key(#[trigger] d[b])
}

/// Keeps one of each run of equal vertices of a sorted sequence.
fn distinct_sorted(sorted: &Vec<MeshVertex>) -> (d: Vec<MeshVertex>)
    requires
        sorted_by_num(sorted@),
    ensures
        strictly_increasing(d@),
        forall|v: MeshVertex| d@.contains(v) <==> sorted@.contains(v),
{
    let mut d: Vec<MeshVertex> = Vec::new();
    let mut i: usize = 0;
    while i < sorted.len()
        invariant
            i <= sorted@.len(),
            sorted_by_num(sorted@),
            strictly_increasing(d@),
            i > 0 ==> d@.len() > 0 && d@.last() == sorted@[i - 1],
            i == 0 ==> d@.len() == 0,
            forall|v: MeshVertex| d@.contains(v) <==> sorted@.subrange(0, i as int).contains(v),
        decreases sorted@.len() - i,
    {
        let v = sorted[i];
        let ghost before = d@;
        let ghost prefix = sorted@.subrange(0, i as int);
        assert(sorted@.subrange(0, i + 1) =~= prefix.push(v));
        if d.len() > 0 && d[d.len() - 1].key_num() == v.key_num() {
            proof {
                lemma_vertex_key_injective(d@.last(), v);
                assert forall|w: MeshVertex| d@.contains(w) <==> prefix.push(v).contains(w) by {
                    if prefix.push(v).contains(w) {
                        let k = choose|k: int| 0 <= k < prefix.push(v).len() && prefix.push(v)[k] == w;
                        if k < prefix.len() {
                            assert(prefix.contains(w));
                        } else {
                            assert(d@[d@.len() - 1] == w);
                        }
                    }
                    if d@.contains(w) {
                        let k = choose|k: int| 0 <= k < prefix.len() && prefix[k] == w;
                        assert(prefix.push(v)[k] == w);
                    }
                }
            }
        } else {
            proof {
                if i > 0 {
                    assert(sorted@[i - 1].num_key() <= sorted@[i as int].num_key());
                }
            }
            d.push(v);
            proof {
                assert forall|a: int, b: int| 0 <= a < b < d@.len() implies vertex_key(#[trigger] d@[a]) < vertex_key(
                    #[trigger] d@[b],
                ) by {
                    if b == d@.len() - 1 {
                        assert(d@[a] == before[a]);
                        if a < before.len() - 1 {
                            assert(vertex_key(before[a]) < vertex_key(before[before.len() - 1]));
                        }
                    } else {
                        assert(d@[a] == before[a] && d@[b] == before[b]);
                    }
                }
                assert forall|w: MeshVertex| d@.contains(w) <==> prefix.push(v).contains(w) by {
                    if prefix.push(v).contains(w) {
                        let k = choose|k: int| 0 <= k < prefix.push(v).len() && prefix.push(v)[k] == w;
                        if k < prefix.len() {
                            assert(prefix.contains(w));
                            assert(before.contains(w));
                            let j = choose|j: int| 0 <= j < before.len() && before[j] == w;
                            assert(d@[j] == w);
                        } else {
                            assert(d@[d@.len() - 1] == w);
                        }
                    }
                    if d@.contains(w) {
                        let k = choose|k: int| 0 <= k < d@.len() && d@[k] == w;
                        if k < before.len() {
                            assert(before[k] == w);
                            assert(before.contains(w));
                            let j = choose|j: int| 0 <= j < prefix.len() && prefix[j] == w;
                            assert(prefix.push(v)[j] == w);
                        } else {
                            assert(prefix.push(v)[prefix.len() as int] == w);
                        }
                    }
                }
            }
        }
        i = i + 1;
    }
    assert(sorted@.subrange(0, sorted@.len() as int) =~= sorted@);
    d
}

/// Every vertex of the entries, entry by entry.
pub open spec fn all_vertices(ms: Seq<MeshEntry>) -> Seq<MeshVertex>
    decreases ms.len(),
{
    if ms.len() == 0 {
        Seq::empty()
    } else {
        all_vertices(ms.drop_last()) + ms.last().vertices@
    }
}

/// Number of triangles of the entries.
pub open spec fn triangle_total(ms: Seq<MeshEntry>) -> nat
    decreases ms.len(),
{
    if ms.len() == 0 {
        0
    } else {
        triangle_total(ms.drop_last()) + ms.last().triangles@.len()
    }
}

/// The corners of the first `n` triangles of entry `e`, each triangle as
/// its third, second and first vertex.
pub open spec fn entry_corners(e: MeshEntry, n: int) -> Seq<MeshVertex>
    decreases n,
{
    if n <= 0 {
        Seq::empty()
    } else {
        let t = e.triangles@[n - 1];
        entry_corners(e, n - 1) + seq![
            e.vertices@[t.vertex3_idx as int],
            e.vertices@[t.vertex2_idx as int],
            e.vertices@[t.vertex1_idx as int],
        ]
    }
}

/// The corners of every triangle of the entries, entry by entry.
pub open spec fn all_corners(ms: Seq<MeshEntry>) -> Seq<MeshVertex>
    decreases ms.len(),
{
    if ms.len() == 0 {
        Seq::empty()
    } else {
        all_corners(ms.drop_last()) + entry_corners(ms.last(), ms.last().triangles@.len() as int)
    }
}

/// The bytes of a vertex: its three coordinates, little-endian.
pub open spec fn vertex_bytes(v: MeshVertex) -> Seq<u8> {
    u32_bytes(v.x) + u32_bytes(v.y) + u32_bytes(v.z)
}

/// The bytes of the vertices, in order.
pub open spec fn vertex_section(d: Seq<MeshVertex>) -> Seq<u8>
    decreases d.len(),
{
    if d.len() == 0 {
        Seq::empty()
    } else {
        vertex_section(d.drop_last()) + vertex_bytes(d.last())
    }
}

/// The position of `v` in `d`.
pub open spec fn position_of(d: Seq<MeshVertex>, v: MeshVertex) -> int {
    choose|i: int| 0 <= i < d.len() && d[i] == v
}

/// The index words of the corners: each corner's position among `d`.
pub open spec fn index_section(d: Seq<MeshVertex>, cs: Seq<MeshVertex>) -> Seq<u8>
    decreases cs.len(),
{
    if cs.len() == 0 {
        Seq::empty()
    } else {
        index_section(d, cs.drop_last()) + u32_bytes(position_of(d, cs.last()) as u32)
    }
}

/// Whether every triangle corner names a vertex of its entry.
pub open spec fn corners_in_range(ms: Seq<MeshEntry>) -> bool {
    forall|k: int, t: int|
        0 <= k < ms.len() && 0 <= t < ms[k].triangles@.len() ==> {
            let tri = #[trigger] ms[k].triangles@[t];
            &&& tri.vertex1_idx < ms[k].vertices@.len()
            &&& tri.vertex2_idx < ms[k].vertices@.len()
            &&& tri.vertex3_idx < ms[k].vertices@.len()
        }
}

/// The mesh bytes, given its distinct vertices `d` in key order: the triangle
/// count, the vertex count, the vertices, then three index words per
/// triangle.
pub open spec fn ximesh_spec(ms: Seq<MeshEntry>, d: Seq<MeshVertex>) -> Seq<u8> {
    u32_bytes(triangle_total(ms) as u32) + u32_bytes(d.len() as u32) + vertex_section(d) + index_section(
        d,
        all_corners(ms),
    )
}

/// Whether `d` holds each vertex of the entries once, in key order.
pub open spec fn distinct_vertices(d: Seq<MeshVertex>, ms: Seq<MeshEntry>) -> bool {
    &&& strictly_increasing(d)
    &&& forall|v: MeshVertex| d.contains(v) <==> all_vertices(ms).contains(v)
}

/// The position of `v` among the strictly increasing `d`, which holds it.
fn find_vertex(d: &Vec<MeshVertex>, v: MeshVertex) -> (i: usize)
    requires
        strictly_increasing(d@),
        d@.contains(v),
    ensures
        i < d@.len(),
        d@[i as int] == v,
{
    let key = v.key_num();
    let mut lo: usize = 0;
    let mut hi: usize = d.len();
    let ghost w = choose|w: int| 0 <= w < d@.len() && d@[w] == v;
    while lo + 1 < hi
        invariant
            lo < hi <= d@.len(),
            lo <= w < hi,
            d@[w] == v,
            key == vertex_key(v),
            strictly_increasing(d@),
        decreases hi - lo,
    {
        let mid = lo + (hi - lo) / 2;
        if d[mid].key_num() <= key {
            proof {
                if w < mid {
                    assert(vertex_key(d@[w]) < vertex_key(d@[mid as int]));
                }
            }
            lo = mid;
        } else {
            proof {
                if w >= mid {
                    if w > mid {
                        assert(vertex_key(d@[mid as int]) < vertex_key(d@[w]));
                    }
                }
            }
            hi = mid;
        }
    }
    lo
}

proof fn lemma_corner_count(ms: Seq<MeshEntry>)
    ensures
        all_corners(ms).len() == 3 * triangle_total(ms),
    decreases ms.len(),
{
    if ms.len() > 0 {
        lemma_corner_count(ms.drop_last());
        lemma_entry_corner_count(ms.last(), ms.last().triangles@.len() as int);
    }
}

proof fn lemma_entry_corner_count(e: MeshEntry, n: int)
    requires
        n >= 0,
    ensures
        entry_corners(e, n).len() == 3 * n,
    decreases n,
{
    if n > 0 {
        lemma_entry_corner_count(e, n - 1);
    }
}

/// Every vertex of the entries, flattened.
fn collect_vertices(meshes: &[MeshEntry]) -> (all: Vec<MeshVertex>)
    ensures
        all@ == all_vertices(meshes@),
{
    let mut all: Vec<MeshVertex> = Vec::new();
    let mut k: usize = 0;
    while k < meshes.len()
        invariant
            k <= meshes@.len(),
            all@ == all_vertices(meshes@.subrange(0, k as int)),
        decreases meshes@.len() - k,
    {
        let e = &meshes[k];
        let ghost start = all@;
        let mut j: usize = 0;
        while j < e.vertices.len()
            invariant
                j <= e.vertices@.len(),
                all@ == start + e.vertices@.subrange(0, j as int),
            decreases e.vertices@.len() - j,
        {
            all.push(e.vertices[j]);
            assert(e.vertices@.subrange(0, j + 1) =~= e.vertices@.subrange(0, j as int).push(e.vertices@[j as int]));
            assert(all@ =~= start + e.vertices@.subrange(0, j + 1));
            j = j + 1;
        }
        assert(e.vertices@.subrange(0, e.vertices@.len() as int) =~= e.vertices@);
        assert(meshes@.subrange(0, k + 1).drop_last() =~= meshes@.subrange(0, k as int));
        assert(meshes@.subrange(0, k + 1).last() == *e);
        k = k + 1;
    }
    assert(meshes@.subrange(0, meshes@.len() as int) =~= meshes@);
    all
}

/// The serialised collision mesh of the entries: the triangle count, the
/// number of distinct vertices, those vertices in key order, and for each
/// triangle the positions of its third, second and first vertex among them.
pub fn ximesh_bytes(meshes: &[MeshEntry]) -> (r: Vec<u8>)
    requires
        corners_in_range(meshes@),
    ensures
        exists|d: Seq<MeshVertex>| distinct_vertices(d, meshes@) && r@ == ximesh_spec(meshes@, d),
{
    let all = collect_vertices(meshes);
    let ghost all_view = all@;
    let sorted = sort_by_num(all);
    let d = distinct_sorted(&sorted);
    assert forall|v: MeshVertex| d@.contains(v) <==> all_vertices(meshes@).contains(v) by {
        assert(sorted@.to_multiset().count(v) == all_view.to_multiset().count(v));
    }
    let mut tail: Vec<u8> = Vec::new();
    let mut k: usize = 0;
    while k < meshes.len()
        invariant
            k <= meshes@.len(),
            corners_in_range(meshes@),
            distinct_vertices(d@, meshes@),
            tail@ == index_section(d@, all_corners(meshes@.subrange(0, k as int))),
        decreases meshes@.len() - k,
    {
        let e = &meshes[k];
        let ghost before = all_corners(meshes@.subrange(0, k as int));
        let mut t: usize = 0;
        while t < e.triangles.len()
            invariant
                t <= e.triangles@.len(),
                *e == meshes@[k as int],
                k < meshes@.len(),
                corners_in_range(meshes@),
                distinct_vertices(d@, meshes@),
                tail@ == index_section(d@, before + entry_corners(*e, t as int)),
                decreases e.triangles@.len() - t,
        {
            let tri = e.triangles[t];
            assert(tri == meshes@[k as int].triangles@[t as int]);
            let ghost cs = before + entry_corners(*e, t as int);
            let v3 = e.vertices[tri.vertex3_idx as usize];
            let v2 = e.vertices[tri.vertex2_idx as usize];
            let v1 = e.vertices[tri.vertex1_idx as usize];
            proof {
                lemma_entry_vertex_in_all(meshes@, k as int, tri.vertex3_idx as int);
                lemma_entry_vertex_in_all(meshes@, k as int, tri.vertex2_idx as int);
                lemma_entry_vertex_in_all(meshes@, k as int, tri.vertex1_idx as int);
            }
            let p3 = find_vertex(&d, v3);
            let p2 = find_vertex(&d, v2);
            let p1 = find_vertex(&d, v1);
            proof {
                lemma_position(d@, v3, p3 as int);
                lemma_position(d@, v2, p2 as int);
                lemma_position(d@, v1, p1 as int);
            }
            push_u32(&mut tail, p3 as u32);
            push_u32(&mut tail, p2 as u32);
            push_u32(&mut tail, p1 as u32);
            proof {
                let c3 = cs.push(v3);
                let c2 = c3.push(v2);
                let c1 = c2.push(v1);
                assert(c3.drop_last() =~= cs);
                assert(c2.drop_last() =~= c3);
                assert(c1.drop_last() =~= c2);
                assert(index_section(d@, c3) == index_section(d@, cs) + u32_bytes(p3 as u32));
                assert(index_section(d@, c2) == index_section(d@, c3) + u32_bytes(p2 as u32));
                assert(index_section(d@, c1) == index_section(d@, c2) + u32_bytes(p1 as u32));
                assert(tail@ =~= index_section(d@, c1));
                let next = before + entry_corners(*e, t + 1);
                assert(entry_corners(*e, t + 1) == entry_corners(*e, t as int) + seq![v3, v2, v1]);
                assert(next =~= c1);
            }
            t = t + 1;
        }
        assert(meshes@.subrange(0, k + 1).drop_last() =~= meshes@.subrange(0, k as int));
        assert(meshes@.subrange(0, k + 1).last() == *e);
        k = k + 1;
    }
    assert(meshes@.subrange(0, meshes@.len() as int) =~= meshes@);
    proof {
        lemma_corner_count(meshes@);
        lemma_index_section_len(d@, all_corners(meshes@));
    }
    let mut out: Vec<u8> = Vec::new();
    push_u32(&mut out, (tail.len() / 12) as u32);
    push_u32(&mut out, d.len() as u32);
    let mut i: usize = 0;
    while i < d.len()
        invariant
            i <= d@.len(),
            out@ == u32_bytes(triangle_total(meshes@) as u32) + u32_bytes(d@.len() as u32) + vertex_section(
                d@.subrange(0, i as int),
            ),
        decreases d@.len() - i,
    {
        let ghost before = out@;
        push_u32(&mut out, d[i].x);
        push_u32(&mut out, d[i].y);
        push_u32(&mut out, d[i].z);
        assert(d@.subrange(0, i + 1).drop_last() =~= d@.subrange(0, i as int));
        assert(out@ =~= before + vertex_bytes(d@[i as int]));
        i = i + 1;
    }
    assert(d@.subrange(0, d@.len() as int) =~= d@);
    let ghost head = out@;
    out.append(&mut tail);
    assert(out@ =~= ximesh_spec(meshes@, d@));
    out
}

proof fn lemma_index_section_len(d: Seq<MeshVertex>, cs: Seq<MeshVertex>)
    ensures
        index_section(d, cs).len() == 4 * cs.len(),
    decreases cs.len(),
{
    if cs.len() > 0 {
        lemma_index_section_len(d, cs.drop_last());
    }
}

proof fn lemma_position(d: Seq<MeshVertex>, v: MeshVertex, p: int)
    requires
        strictly_increasing(d),
        0 <= p < d.len(),
        d[p] == v,
    ensures
        position_of(d, v) == p,
{
    let q = position_of(d, v);
    assert(0 <= q < d.len() && d[q] == v);
    if q < p {
        assert(vertex_key(d[q]) < vertex_key(d[p]));
    } else if p < q {
        assert(vertex_key(d[p]) < vertex_key(d[q]));
    }
}

proof fn lemma_entry_vertex_in_all(ms: Seq<MeshEntry>, k: int, i: int)
    requires
        0 <= k < ms.len(),
        0 <= i < ms[k].vertices@.len(),
    ensures
        all_vertices(ms).contains(ms[k].vertices@[i]),
    decreases ms.len(),
{
    let last = ms.len() - 1;
    if k == last {
        let base = all_vertices(ms.drop_last());
        assert(all_vertices(ms)[base.len() + i] == ms[k].vertices@[i]);
    } else {
        assert(ms.drop_last()[k] == ms[k]);
        lemma_entry_vertex_in_all(ms.drop_last(), k, i);
        let base = all_vertices(ms.drop_last());
        let j = choose|j: int| 0 <= j < base.len() && base[j] == ms[k].vertices@[i];
        assert(all_vertices(ms)[j] == base[j]);
    }
}

} // verus!
