use vstd::prelude::*;

verus! {

/// A triangle given by three indices into a vertex list.
pub type Face = [usize; 3];

/// An undirected edge, smaller vertex index first.
pub type EdgeKey = (usize, usize);

/// The twenty faces of the unit icosahedron, over its twelve vertices.
pub open spec fn icosahedron_face_table() -> Seq<Face> {
    seq![
        [0usize, 11, 5], [0, 5, 1], [0, 1, 7], [0, 7, 10], [0, 10, 11],
        [1, 5, 9], [5, 11, 4], [11, 10, 2], [10, 7, 6], [7, 1, 8],
        [3, 9, 4], [3, 4, 2], [3, 2, 6], [3, 6, 8], [3, 8, 9],
        [4, 9, 5], [2, 4, 11], [6, 2, 10], [8, 6, 7], [9, 8, 1],
    ]
}

/// Every index of every face is below `vertex_count`.
pub open spec fn faces_within(faces: Seq<Face>, vertex_count: int) -> bool {
    forall|i: int, k: int| 0 <= i < faces.len() && 0 <= k < 3 ==> #[trigger] faces[i][k] < vertex_count
}

/// The key of the edge between `x` and `y`, whichever way it is walked.
pub open spec fn edge_key(x: usize, y: usize) -> EdgeKey {
    if x < y { (x, y) } else { (y, x) }
}

/// The three edges of a face, in the order `ab`, `bc`, `ca`.
pub open spec fn face_edge_keys(f: Face) -> Seq<EdgeKey> {
    seq![edge_key(f[0], f[1]), edge_key(f[1], f[2]), edge_key(f[2], f[0])]
}

/// The edges of all faces, face by face, with repetitions.
pub open spec fn edge_keys(faces: Seq<Face>) -> Seq<EdgeKey>
    decreases faces.len(),
{
    if faces.len() == 0 {
        Seq::empty()
    } else {
        edge_keys(faces.drop_last()) + face_edge_keys(faces.last())
    }
}

/// The elements of `s` without repetitions, each where it first occurs.
pub open spec fn first_occurrences<A>(s: Seq<A>) -> Seq<A>
    decreases s.len(),
{
    if s.len() == 0 {
        Seq::empty()
    } else {
        let d = first_occurrences(s.drop_last());
        if d.contains(s.last()) { d } else { d.push(s.last()) }
    }
}

/// The distinct edges of a mesh, in the order in which a walk over its faces meets them.
pub open spec fn distinct_edges(faces: Seq<Face>) -> Seq<EdgeKey> {
    first_occurrences(edge_keys(faces))
}

/// Vertex `m` is the midpoint created for the edge between `x` and `y`: the midpoint
/// vertices are numbered from `base` in the order of `midpoints`.
pub open spec fn is_midpoint(midpoints: Seq<EdgeKey>, base: nat, x: usize, y: usize, m: usize) -> bool {
    &&& base <= m < base + midpoints.len()
    &&& midpoints[m - base] == edge_key(x, y)
}

/// The four faces that replace `f` when each of its edges is split at its midpoint:
/// three corner faces and the middle one, in that order.
pub open spec fn splits_face(f: Face, out: Seq<Face>, at: int, midpoints: Seq<EdgeKey>, base: nat) -> bool {
    let (a, b, c) = (f[0], f[1], f[2]);
    let (ab, bc, ca) = (out[at][1], out[at + 1][1], out[at][2]);
    &&& is_midpoint(midpoints, base, a, b, ab)
    &&& is_midpoint(midpoints, base, b, c, bc)
    &&& is_midpoint(midpoints, base, c, a, ca)
    &&& out[at] == [a, ab, ca]
    &&& out[at + 1] == [b, bc, ab]
    &&& out[at + 2] == [c, ca, bc]
    &&& out[at + 3] == [ab, bc, ca]
}

/// Every edge joins two vertices below `bound`, smaller index first.
pub open spec fn edges_below(edges: Seq<EdgeKey>, bound: nat) -> bool {
    forall|k: int| #![trigger edges[k]] 0 <= k < edges.len() ==> edges[k].0 <= edges[k].1 && edges[k].1 < bound
}

pub open spec fn no_duplicates<A>(s: Seq<A>) -> bool {
    forall|i: int, j: int| 0 <= i < s.len() && 0 <= j < s.len() && i != j ==> s[i] != s[j]
}

/// Faces of the icosahedron, counter-clockwise seen from outside.
pub fn icosahedron_faces() -> (faces: Vec<Face>)
    ensures
        faces@ == icosahedron_face_table(),
{
    vec![
        [0, 11, 5], [0, 5, 1], [0, 1, 7], [0, 7, 10], [0, 10, 11],
        [1, 5, 9], [5, 11, 4], [11, 10, 2], [10, 7, 6], [7, 1, 8],
        [3, 9, 4], [3, 4, 2], [3, 2, 6], [3, 6, 8], [3, 8, 9],
        [4, 9, 5], [2, 4, 11], [6, 2, 10], [8, 6, 7], [9, 8, 1],
    ]
}

/// Every edge joins two vertices that existed when its midpoint was made, smaller index
/// first: the vertices are numbered from `base` in the order of `edges`, so edge `k`
/// ends below `base + k`.
pub open spec fn edges_before(edges: Seq<EdgeKey>, base: nat) -> bool {
    forall|k: int| #![trigger edges[k]] 0 <= k < edges.len() ==> edges[k].0 <= edges[k].1 && edges[k].1 < base + k
}

/// Midpoint vertices created so far during one subdivision step, and an index from
/// each edge to its midpoint. Vertex `base + k` is the midpoint of `midpoints[k]`; the
/// mesh has `base + midpoints.len()` vertices.
pub struct MidpointCache {
    base: usize,
    /// For each vertex `lo` of the mesh, the pairs `(hi, m)`: `m` is the midpoint of
    /// edge `(lo, hi)`.
    by_low: Vec<Vec<(usize, usize)>>,
    midpoints: Vec<EdgeKey>,
}

impl MidpointCache {
    pub closed spec fn base(&self) -> nat {
        self.base as nat
    }

    /// The edges split so far, in the order in which their midpoints were created.
    pub closed spec fn midpoints(&self) -> Seq<EdgeKey> {
        self.midpoints@
    }

    pub closed spec fn wf(&self) -> bool {
        &&& self.by_low.len() == self.base + self.midpoints@.len()
        &&& no_duplicates(self.midpoints@)
        &&& self.base + self.midpoints@.len() <= usize::MAX
        &&& edges_before(self.midpoints@, self.base as nat)
        &&& forall|lo: int, j: int|
            #![trigger self.by_low@[lo]@[j]]
            0 <= lo < self.by_low@.len() && 0 <= j < self.by_low@[lo]@.len() ==> {
                let (hi, m) = self.by_low@[lo]@[j];
                &&& self.base <= m < self.base + self.midpoints@.len()
                &&& self.midpoints@[m - self.base] == (lo as usize, hi)
            }
        &&& forall|k: int|
            #![trigger self.midpoints@[k]]
            0 <= k < self.midpoints@.len() ==> {
                let (lo, hi) = self.midpoints@[k];
                &&& lo < self.by_low@.len()
                &&& exists|j: int|
                    0 <= j < self.by_low@[lo as int]@.len() && #[trigger] self.by_low@[lo as int]@[j] == (
                    hi,
                    (self.base + k) as usize,
                )
            }
    }

    /// An empty cache for a mesh of `vertex_count` vertices.
    pub fn new(vertex_count: usize) -> (cache: Self)
        ensures
            cache.wf(),
            cache.base() == vertex_count,
            cache.midpoints() == Seq::<EdgeKey>::empty(),
    {
        let mut by_low: Vec<Vec<(usize, usize)>> = Vec::new();
        let mut i: usize = 0;
        while i < vertex_count
            invariant
                i <= vertex_count,
                by_low.len() == i,
                forall|lo: int| 0 <= lo < i ==> (#[trigger] by_low@[lo])@.len() == 0,
            decreases vertex_count - i,
        {
            by_low.push(Vec::new());
            i = i + 1;
        }
        MidpointCache { base: vertex_count, by_low, midpoints: Vec::new() }
    }

    /// The edges split so far.
    pub fn into_midpoints(self) -> (midpoints: Vec<EdgeKey>)
        ensures
            midpoints@ == self.midpoints(),
    {
        self.midpoints
    }

    /// The index of the midpoint vertex of the edge between `i0` and `i1` (any vertices
    /// of the mesh, midpoints made earlier included), created as the next vertex the
    /// first time that edge is asked for and reused afterwards.
    pub fn get_midpoint_index(&mut self, i0: usize, i1: usize) -> (index: usize)
        requires
            old(self).wf(),
            i0 < old(self).base() + old(self).midpoints().len(),
            i1 < old(self).base() + old(self).midpoints().len(),
            old(self).base() + old(self).midpoints().len() < usize::MAX,
        ensures
            final(self).wf(),
            final(self).base() == old(self).base(),
            final(self).midpoints() == (if old(self).midpoints().contains(edge_key(i0, i1)) {
                old(self).midpoints()
            } else {
                old(self).midpoints().push(edge_key(i0, i1))
            }),
            is_midpoint(final(self).midpoints(), final(self).base(), i0, i1, index),
    {
        let (lo, hi) = if i0 < i1 { (i0, i1) } else { (i1, i0) };
        let ghost key = edge_key(i0, i1);
        let len = self.by_low[lo].len();
        let mut j: usize = 0;
        let mut found: Option<usize> = None;
        while j < len
            invariant_except_break
                forall|t: int| 0 <= t < j ==> (#[trigger] self.by_low@[lo as int]@[t]).0 != hi,
                found is None,
            invariant
                self.wf(),
                key == (lo, hi),
                key == edge_key(i0, i1),
                lo < self.by_low.len(),
                len == self.by_low@[lo as int]@.len(),
                j <= len,
            ensures
                self.wf(),
                found is None ==> j == len && forall|t: int| 0 <= t < len ==> (#[trigger] self.by_low@[lo as int]@[t]).0 != hi,
                found matches Some(m) ==> is_midpoint(self.midpoints@, self.base as nat, i0, i1, m),
            decreases len - j,
        {
            let (h, m) = self.by_low[lo][j];
            if h == hi {
                proof {
                    let t = j as int;
                    assert(self.by_low@[lo as int]@[t] == (h, m));
                    assert(self.base <= m < self.base + self.midpoints@.len());
                    assert(self.midpoints@[m - self.base] == (lo, h));
                }
                found = Some(m);
                break;
            }
            j = j + 1;
        }
        if let Some(m) = found {
            proof {
                let k = m - self.base;
                assert(self.midpoints@[k] == key);
                assert(self.midpoints@.contains(key));
            }
            return m;
        }
        proof {
            if self.midpoints@.contains(key) {
                let k = choose|k: int| 0 <= k < self.midpoints@.len() && self.midpoints@[k] == key;
                assert(self.midpoints@[k] == key);
                let w = choose|w: int|
                    0 <= w < self.by_low@[lo as int]@.len() && #[trigger] self.by_low@[lo as int]@[w] == (
                    hi,
                    (self.base + k) as usize,
                );
                assert(self.by_low@[lo as int]@[w].0 == hi);
                assert(false);
            }
        }
        let index = self.base + self.midpoints.len();
        let ghost old_mid = self.midpoints@;
        let ghost old_low = self.by_low@;
        let mut row: Vec<(usize, usize)> = Vec::new();
        std::mem::swap(&mut row, &mut self.by_low[lo]);
        row.push((hi, index));
        self.by_low.set(lo, row);
        self.midpoints.push((lo, hi));
        self.by_low.push(Vec::new());
        proof {
            assert(self.midpoints@ == old_mid.push(key));
            assert forall|l: int, t: int|
                #![trigger self.by_low@[l]@[t]]
                0 <= l < self.by_low@.len() && 0 <= t < self.by_low@[l]@.len() implies {
                let (h2, m2) = self.by_low@[l]@[t];
                &&& self.base <= m2 < self.base + self.midpoints@.len()
                &&& self.midpoints@[m2 - self.base] == (l as usize, h2)
            } by {
                if l == old_low.len() as int {
                } else if l == lo as int && t == old_low[l]@.len() {
                } else {
                    assert(self.by_low@[l]@[t] == old_low[l]@[t]);
                }
            }
            assert forall|k: int|
                #![trigger self.midpoints@[k]]
                0 <= k < self.midpoints@.len() implies {
                let (l, h2) = self.midpoints@[k];
                &&& l < self.by_low@.len()
                &&& exists|w: int|
                    0 <= w < self.by_low@[l as int]@.len() && #[trigger] self.by_low@[l as int]@[w] == (
                    h2,
                    (self.base + k) as usize,
                )
            } by {
                if k == old_mid.len() {
                    let w = old_low[lo as int]@.len() as int;
                    assert(self.by_low@[lo as int]@[w] == (hi, index));
                } else {
                    assert(self.midpoints@[k] == old_mid[k]);
                    let (l, h2) = old_mid[k];
                    let w = choose|w: int|
                        0 <= w < old_low[l as int]@.len() && #[trigger] old_low[l as int]@[w] == (
                        h2,
                        (self.base + k) as usize,
                    );
                    assert(self.by_low@[l as int]@[w] == old_low[l as int]@[w]);
                }
            }
            assert forall|a: int, b: int|
                0 <= a < self.midpoints@.len() && 0 <= b < self.midpoints@.len() && a != b implies
                self.midpoints@[a] != self.midpoints@[b] by {
                if a == old_mid.len() as int {
                    assert(old_mid[b] == self.midpoints@[b]);
                } else if b == old_mid.len() as int {
                    assert(old_mid[a] == self.midpoints@[a]);
                }
            }
        }
        index
    }
}

proof fn lemma_first_occurrences_push<A>(s: Seq<A>, k: A)
    ensures
        first_occurrences(s.push(k)) == (if first_occurrences(s).contains(k) {
            first_occurrences(s)
        } else {
            first_occurrences(s).push(k)
        }),
{
    assert(s.push(k).drop_last() =~= s);
}

proof fn lemma_first_occurrences_len<A>(s: Seq<A>)
    ensures
        first_occurrences(s).len() <= s.len(),
    decreases s.len(),
{
    if s.len() > 0 {
        lemma_first_occurrences_len(s.drop_last());
    }
}

proof fn lemma_edge_keys_len(faces: Seq<Face>)
    ensures
        edge_keys(faces).len() == 3 * faces.len(),
    decreases faces.len(),
{
    if faces.len() > 0 {
        lemma_edge_keys_len(faces.drop_last());
    }
}

proof fn lemma_edge_keys_step(faces: Seq<Face>, i: int)
    requires
        0 <= i < faces.len(),
    ensures
        edge_keys(faces.take(i + 1)) == edge_keys(faces.take(i)).push(face_edge_keys(faces[i])[0]).push(
            face_edge_keys(faces[i])[1],
        ).push(face_edge_keys(faces[i])[2]),
{
    assert(faces.take(i + 1).drop_last() =~= faces.take(i));
    let s = edge_keys(faces.take(i));
    let f = face_edge_keys(faces[i]);
    assert(s + f =~= s.push(f[0]).push(f[1]).push(f[2]));
}

/// The vertex number given to the midpoint of the edge between `x` and `y`.
pub open spec fn midpoint_number(midpoints: Seq<EdgeKey>, base: nat, x: usize, y: usize) -> usize {
    (base + choose|k: int| 0 <= k < midpoints.len() && midpoints[k] == edge_key(x, y)) as usize
}

/// The four faces that replace `f`: three corner faces, then the middle one.
pub open spec fn split_face(f: Face, midpoints: Seq<EdgeKey>, base: nat) -> Seq<Face> {
    let (a, b, c) = (f[0], f[1], f[2]);
    let ab = midpoint_number(midpoints, base, a, b);
    let bc = midpoint_number(midpoints, base, b, c);
    let ca = midpoint_number(midpoints, base, c, a);
    seq![[a, ab, ca], [b, bc, ab], [c, ca, bc], [ab, bc, ca]]
}

/// Every face replaced by its four parts, in order.
pub open spec fn split_faces(faces: Seq<Face>, midpoints: Seq<EdgeKey>, base: nat) -> Seq<Face> {
    Seq::new(4 * faces.len(), |k: int| split_face(faces[k / 4], midpoints, base)[k % 4])
}

proof fn lemma_midpoint_number_unique(midpoints: Seq<EdgeKey>, base: nat, x: usize, y: usize, m: usize)
    requires
        is_midpoint(midpoints, base, x, y, m),
        no_duplicates(midpoints),
    ensures
        m == midpoint_number(midpoints, base, x, y),
{
    let k0 = m - base;
    assert(midpoints[k0] == edge_key(x, y));
    let k = choose|k: int| 0 <= k < midpoints.len() && midpoints[k] == edge_key(x, y);
    assert(k == k0);
}

proof fn lemma_split_faces_exact(faces: Seq<Face>, out: Seq<Face>, midpoints: Seq<EdgeKey>, base: nat)
    requires
        out.len() == 4 * faces.len(),
        no_duplicates(midpoints),
        base + midpoints.len() <= usize::MAX,
        faces_within(faces, base as int),
        forall|i: int| 0 <= i < faces.len() ==> #[trigger] splits_face(faces[i], out, 4 * i, midpoints, base),
    ensures
        out == split_faces(faces, midpoints, base),
        faces_within(out, (base + midpoints.len()) as int),
{
    assert forall|k: int| 0 <= k < out.len() implies #[trigger] out[k] == split_faces(faces, midpoints, base)[k] && (
    forall|t: int| 0 <= t < 3 ==> #[trigger] out[k][t] < base + midpoints.len()) by {
        let i = k / 4;
        let r = k % 4;
        assert(0 <= i < faces.len());
        assert(k == 4 * i + r);
        assert(splits_face(faces[i], out, 4 * i, midpoints, base));
        let f = faces[i];
        assert(f[0] < base && f[1] < base && f[2] < base) by {
            assert(faces[i][0] < base);
            assert(faces[i][1] < base);
            assert(faces[i][2] < base);
        }
        lemma_midpoint_number_unique(midpoints, base, f[0], f[1], out[4 * i][1]);
        lemma_midpoint_number_unique(midpoints, base, f[1], f[2], out[4 * i + 1][1]);
        lemma_midpoint_number_unique(midpoints, base, f[2], f[0], out[4 * i][2]);
    }
    assert(out =~= split_faces(faces, midpoints, base));
}

/// A face split against some midpoints stays split the same way once more midpoints and
/// more faces are appended after them.
proof fn lemma_splits_face_extend(
    f: Face,
    out: Seq<Face>,
    out2: Seq<Face>,
    at: int,
    m: Seq<EdgeKey>,
    m2: Seq<EdgeKey>,
    base: nat,
)
    requires
        splits_face(f, out, at, m, base),
        0 <= at,
        at + 4 <= out.len() <= out2.len(),
        forall|k: int| 0 <= k < out.len() ==> out2[k] == out[k],
        m.len() <= m2.len(),
        forall|k: int| 0 <= k < m.len() ==> m2[k] == m[k],
    ensures
        splits_face(f, out2, at, m2, base),
{
    assert(out2[at] == out[at]);
    assert(out2[at + 1] == out[at + 1]);
    assert(out2[at + 2] == out[at + 2]);
    assert(out2[at + 3] == out[at + 3]);
    let (x, y, z) = (out[at][1], out[at + 1][1], out[at][2]);
    assert(m2[x - base] == m[x - base]);
    assert(m2[y - base] == m[y - base]);
    assert(m2[z - base] == m[z - base]);
}

/// Splits every face of a mesh into four, creating one midpoint vertex per distinct
/// edge. The new vertices are numbered from `vertex_count`, in the order in which the
/// faces meet their edges; `midpoints[k]` is the edge whose midpoint is vertex
/// `vertex_count + k`.
#[verifier::rlimit(40)]
pub fn subdivide_faces(faces: &Vec<Face>, vertex_count: usize) -> (result: (Vec<Face>, Vec<EdgeKey>))
    requires
        faces_within(faces@, vertex_count as int),
        vertex_count + 3 * faces.len() < usize::MAX,
    ensures
        result.1@ == distinct_edges(faces@),
        result.0@ == split_faces(faces@, distinct_edges(faces@), vertex_count as nat),
        no_duplicates(result.1@),
        edges_below(result.1@, vertex_count as nat),
        result.0.len() == 4 * faces.len(),
        faces_within(result.0@, vertex_count + result.1.len()),
        forall|i: int|
            0 <= i < faces.len() ==> #[trigger] splits_face(faces@[i], result.0@, 4 * i, result.1@, vertex_count as nat),
{
    let mut cache = MidpointCache::new(vertex_count);
    let mut new_faces: Vec<Face> = Vec::new();
    let n = faces.len();
    let mut i: usize = 0;
    while i < n
        invariant
            n == faces.len(),
            i <= n,
            faces_within(faces@, vertex_count as int),
            vertex_count + 3 * n < usize::MAX,
            cache.wf(),
            cache.base() == vertex_count,
            cache.midpoints() == first_occurrences(edge_keys(faces@.take(i as int))),
            new_faces.len() == 4 * i,
            forall|j: int|
                0 <= j < i ==> #[trigger] splits_face(faces@[j], new_faces@, 4 * j, cache.midpoints(), vertex_count as nat),
        decreases n - i,
    {
        proof {
            lemma_edge_keys_len(faces@.take(i as int));
            lemma_first_occurrences_len(edge_keys(faces@.take(i as int)));
            lemma_edge_keys_step(faces@, i as int);
        }
        let ghost m0 = cache.midpoints();
        let ghost f = faces@[i as int];
        let a = faces[i][0];
        let b = faces[i][1];
        let c = faces[i][2];
        assert(a < vertex_count && b < vertex_count && c < vertex_count) by {
            assert(faces@[i as int][0] < vertex_count);
            assert(faces@[i as int][1] < vertex_count);
            assert(faces@[i as int][2] < vertex_count);
        }
        let ab = cache.get_midpoint_index(a, b);
        let ghost m1 = cache.midpoints();
        let bc = cache.get_midpoint_index(b, c);
        let ghost m2 = cache.midpoints();
        let ca = cache.get_midpoint_index(c, a);
        let ghost m3 = cache.midpoints();
        let ghost old_faces = new_faces@;
        new_faces.push([a, ab, ca]);
        new_faces.push([b, bc, ab]);
        new_faces.push([c, ca, bc]);
        new_faces.push([ab, bc, ca]);
        proof {
            let s = edge_keys(faces@.take(i as int));
            let fk = face_edge_keys(f);
            lemma_first_occurrences_push(s, fk[0]);
            lemma_first_occurrences_push(s.push(fk[0]), fk[1]);
            lemma_first_occurrences_push(s.push(fk[0]).push(fk[1]), fk[2]);
            assert(m3 == first_occurrences(edge_keys(faces@.take(i + 1))));
            // Midpoints only ever grow at the end: earlier ones keep their numbers.
            assert forall|k: int| 0 <= k < m0.len() implies m3[k] == m0[k] by {}
            assert forall|k: int| 0 <= k < m1.len() implies m3[k] == m1[k] by {}
            assert forall|k: int| 0 <= k < m2.len() implies m3[k] == m2[k] by {}
            assert(is_midpoint(m3, vertex_count as nat, a, b, ab));
            assert(is_midpoint(m3, vertex_count as nat, b, c, bc));
            assert(is_midpoint(m3, vertex_count as nat, c, a, ca));
            assert forall|j: int| 0 <= j < i + 1 implies #[trigger] splits_face(
                faces@[j],
                new_faces@,
                4 * j,
                m3,
                vertex_count as nat,
            ) by {
                if j < i {
                    lemma_splits_face_extend(faces@[j], old_faces, new_faces@, 4 * j, m0, m3, vertex_count as nat);
                } else {
                    assert(faces@[j] == f);
                }
            }
        }
        i = i + 1;
    }
    assert(faces@.take(n as int) =~= faces@);
    proof {
        lemma_split_faces_exact(faces@, new_faces@, cache.midpoints(), vertex_count as nat);
        lemma_split_faces_within(faces@, vertex_count as int);
    }
    (new_faces, cache.into_midpoints())
}

pub open spec fn pow4(n: nat) -> nat
    decreases n,
{
    if n == 0 { 1 } else { 4 * pow4((n - 1) as nat) }
}

/// The faces of the icosahedron after `n` subdivisions, and the parent edge of every
/// vertex created on the way: vertex `12 + k` is the midpoint of `parents[k]`.
pub open spec fn sphere_levels(n: nat) -> (Seq<Face>, Seq<EdgeKey>)
    decreases n,
{
    if n == 0 {
        (icosahedron_face_table(), Seq::empty())
    } else {
        let prev = sphere_levels((n - 1) as nat);
        let mids = distinct_edges(prev.0);
        (split_faces(prev.0, mids, 12 + prev.1.len()), prev.1 + mids)
    }
}

/// Each created vertex is the midpoint of an edge between two vertices created before it.
pub open spec fn parents_precede(parents: Seq<EdgeKey>) -> bool {
    forall|k: int| #![trigger parents[k]] 0 <= k < parents.len() ==> parents[k].0 <= parents[k].1 && parents[k].1 < 12 + k
}

/// The index structure of a subdivided icosahedron: its faces, and how each vertex
/// beyond the first twelve is made (as the midpoint of an edge between two earlier ones).
pub struct SphereTopology {
    pub faces: Vec<Face>,
    pub midpoint_parents: Vec<EdgeKey>,
}

proof fn lemma_pow4_monotone(a: nat, b: nat)
    requires
        a <= b,
    ensures
        pow4(a) <= pow4(b),
    decreases b,
{
    if a < b {
        lemma_pow4_monotone(a, (b - 1) as nat);
    }
}

proof fn lemma_icosahedron_within()
    ensures
        faces_within(icosahedron_face_table(), 12),
{
    let t = icosahedron_face_table();
    assert forall|i: int, k: int| 0 <= i < t.len() && 0 <= k < 3 implies #[trigger] t[i][k] < 12 by {
        assert(t[i][0] < 12 && t[i][1] < 12 && t[i][2] < 12);
    }
}

/// The faces of the icosahedron subdivided `subdivisions` times, each time splitting
/// every face into four at the midpoints of its edges.
pub fn icosahedron_topology(subdivisions: usize) -> (mesh: SphereTopology)
    requires
        20 * pow4(subdivisions as nat) < usize::MAX,
    ensures
        (mesh.faces@, mesh.midpoint_parents@) == sphere_levels(subdivisions as nat),
        mesh.faces.len() == 20 * pow4(subdivisions as nat),
        faces_within(mesh.faces@, 12 + mesh.midpoint_parents.len()),
        parents_precede(mesh.midpoint_parents@),
{
    let mut faces = icosahedron_faces();
    let mut parents: Vec<EdgeKey> = Vec::new();
    let mut level: usize = 0;
    proof {
        lemma_icosahedron_within();
        lemma_pow4_monotone(0, subdivisions as nat);
    }
    while level < subdivisions
        invariant
            level <= subdivisions,
            20 * pow4(subdivisions as nat) < usize::MAX,
            (faces@, parents@) == sphere_levels(level as nat),
            faces.len() == 20 * pow4(level as nat),
            12 + parents.len() <= 20 * pow4(level as nat),
            faces_within(faces@, 12 + parents.len()),
            parents_precede(parents@),
        decreases subdivisions - level,
    {
        proof {
            lemma_pow4_monotone((level + 1) as nat, subdivisions as nat);
            lemma_edge_keys_len(faces@);
            lemma_first_occurrences_len(edge_keys(faces@));
        }
        let vertex_count = 12 + parents.len();
        let (new_faces, mut mids) = subdivide_faces(&faces, vertex_count);
        let ghost old_parents = parents@;
        let ghost mids_seq = mids@;
        parents.append(&mut mids);
        faces = new_faces;
        level = level + 1;
        proof {
            assert(parents_precede(parents@)) by {
                assert forall|k: int| #![trigger parents@[k]] 0 <= k < parents@.len() implies parents@[k].0 <= parents@[k].1
                    && parents@[k].1 < 12 + k by {
                    if k >= old_parents.len() {
                        let j = k - old_parents.len();
                        assert(parents@[k] == mids_seq[j]);
                        assert(mids_seq[j].1 < vertex_count);
                    } else {
                        assert(parents@[k] == old_parents[k]);
                    }
                }
            }
        }
    }
    SphereTopology { faces, midpoint_parents: parents }
}

proof fn lemma_edge_keys_index(faces: Seq<Face>, i: int, t: int)
    requires
        0 <= i < faces.len(),
        0 <= t < 3,
    ensures
        edge_keys(faces).len() == 3 * faces.len(),
        edge_keys(faces)[3 * i + t] == face_edge_keys(faces[i])[t],
    decreases faces.len(),
{
    lemma_edge_keys_len(faces);
    lemma_edge_keys_len(faces.drop_last());
    if i < faces.len() - 1 {
        lemma_edge_keys_index(faces.drop_last(), i, t);
    }
}

proof fn lemma_first_occurrences_same_elements<A>(s: Seq<A>)
    ensures
        no_duplicates(first_occurrences(s)),
        forall|x: A| #[trigger] first_occurrences(s).contains(x) <==> s.contains(x),
    decreases s.len(),
{
    if s.len() > 0 {
        let p = s.drop_last();
        lemma_first_occurrences_same_elements(p);
        let d = first_occurrences(p);
        let last = s.last();
        assert(s == p.push(last));
        assert forall|x: A| #[trigger] first_occurrences(s).contains(x) <==> s.contains(x) by {
            if s.contains(x) {
                let k = choose|k: int| 0 <= k < s.len() && s[k] == x;
                if k < s.len() - 1 {
                    assert(p[k] == x);
                    assert(p.contains(x));
                    assert(d.contains(x));
                    let j = choose|j: int| 0 <= j < d.len() && d[j] == x;
                    if !d.contains(last) {
                        assert(d.push(last)[j] == x);
                    }
                } else {
                    assert(x == last);
                    if !d.contains(last) {
                        assert(d.push(last)[d.len() as int] == x);
                    }
                }
            }
            if first_occurrences(s).contains(x) {
                let j = choose|j: int| 0 <= j < first_occurrences(s).len() && first_occurrences(s)[j] == x;
                if j < d.len() {
                    assert(d[j] == x);
                    assert(d.contains(x));
                    assert(p.contains(x));
                    let k = choose|k: int| 0 <= k < p.len() && p[k] == x;
                    assert(s[k] == x);
                } else {
                    assert(x == last);
                    assert(s[s.len() - 1] == x);
                }
            }
        }
        assert forall|a: int, b: int|
            0 <= a < first_occurrences(s).len() && 0 <= b < first_occurrences(s).len() && a != b implies
            first_occurrences(s)[a] != first_occurrences(s)[b] by {
            if !d.contains(last) {
                if a == d.len() {
                    assert(d[b] == first_occurrences(s)[b]);
                } else if b == d.len() {
                    assert(d[a] == first_occurrences(s)[a]);
                } else {
                    assert(d[a] == first_occurrences(s)[a]);
                    assert(d[b] == first_occurrences(s)[b]);
                }
            }
        }
    }
}

/// Faces split against all of their distinct edges stay within the enlarged vertex list.
proof fn lemma_split_faces_within(faces: Seq<Face>, base: int)
    requires
        faces_within(faces, base),
        base >= 0,
    ensures
        faces_within(split_faces(faces, distinct_edges(faces), base as nat), base + distinct_edges(faces).len()),
        edges_below(distinct_edges(faces), base as nat),
        no_duplicates(distinct_edges(faces)),
{
    let mids = distinct_edges(faces);
    let out = split_faces(faces, mids, base as nat);
    lemma_first_occurrences_same_elements(edge_keys(faces));
    lemma_edge_keys_len(faces);
    assert forall|k: int| #![trigger mids[k]] 0 <= k < mids.len() implies mids[k].0 <= mids[k].1 && mids[k].1
        < base by {
        assert(mids.contains(mids[k]));
        let j = choose|j: int| 0 <= j < edge_keys(faces).len() && edge_keys(faces)[j] == mids[k];
        let i = j / 3;
        let t = j % 3;
        lemma_edge_keys_index(faces, i, t);
        assert(j == 3 * i + t);
        assert(faces[i][0] < base && faces[i][1] < base && faces[i][2] < base);
    }
    assert forall|k: int, t: int| 0 <= k < out.len() && 0 <= t < 3 implies #[trigger] out[k][t] < base
        + mids.len() by {
        let i = k / 4;
        let f = faces[i];
        assert(f[0] < base && f[1] < base && f[2] < base);
        assert forall|e: int| 0 <= e < 3 implies mids.contains(#[trigger] face_edge_keys(f)[e]) by {
            lemma_edge_keys_index(faces, i, e);
            assert(edge_keys(faces).contains(face_edge_keys(f)[e]));
        }
        assert(mids.contains(face_edge_keys(f)[0]));
        assert(mids.contains(face_edge_keys(f)[1]));
        assert(mids.contains(face_edge_keys(f)[2]));
    }
}

/// Law: subdividing `n` times gives `20 * 4^n` faces.
pub proof fn law_sphere_face_count(n: nat)
    ensures
        sphere_levels(n).0.len() == 20 * pow4(n),
    decreases n,
{
    if n > 0 {
        law_sphere_face_count((n - 1) as nat);
    }
}

/// Law: after any number of subdivisions every face names existing vertices, and every
/// created vertex is the midpoint of an edge between two vertices created before it.
pub proof fn law_sphere_well_formed(n: nat)
    ensures
        faces_within(sphere_levels(n).0, 12 + sphere_levels(n).1.len() as int),
        parents_precede(sphere_levels(n).1),
    decreases n,
{
    if n == 0 {
        lemma_icosahedron_within();
    } else {
        law_sphere_well_formed((n - 1) as nat);
        let prev = sphere_levels((n - 1) as nat);
        let base = 12 + prev.1.len();
        lemma_split_faces_within(prev.0, base as int);
        let mids = distinct_edges(prev.0);
        let parents = sphere_levels(n).1;
        assert forall|k: int| #![trigger parents[k]] 0 <= k < parents.len() implies parents[k].0 <= parents[k].1
            && parents[k].1 < 12 + k by {
            if k >= prev.1.len() {
                assert(parents[k] == mids[k - prev.1.len()]);
            } else {
                assert(parents[k] == prev.1[k]);
            }
        }
    }
}

/// Law: one subdivision splits each distinct edge exactly once: the new midpoints are
/// the edges of the faces, each listed once.
pub proof fn law_each_edge_split_once(faces: Seq<Face>)
    ensures
        no_duplicates(distinct_edges(faces)),
        forall|e: EdgeKey| #[trigger] distinct_edges(faces).contains(e) <==> edge_keys(faces).contains(e),
{
    lemma_first_occurrences_same_elements(edge_keys(faces));
}

/// Law: an edge has one midpoint, whichever way it is walked.
pub proof fn law_midpoint_shared(midpoints: Seq<EdgeKey>, base: nat, x: usize, y: usize, m1: usize, m2: usize)
    requires
        no_duplicates(midpoints),
        is_midpoint(midpoints, base, x, y, m1),
        is_midpoint(midpoints, base, y, x, m2),
    ensures
        m1 == m2,
{
    assert(edge_key(x, y) == edge_key(y, x));
}

/// Every face has three distinct vertices: no triangle is degenerate.
pub open spec fn proper_faces(faces: Seq<Face>) -> bool {
    forall|i: int|
        #![trigger faces[i]]
        0 <= i < faces.len() ==> faces[i][0] != faces[i][1] && faces[i][1] != faces[i][2] && faces[i][2] != faces[i][0]
}

proof fn lemma_sphere_vertex_bound(n: nat)
    ensures
        sphere_levels(n).0.len() == 20 * pow4(n),
        12 + sphere_levels(n).1.len() <= 20 * pow4(n),
    decreases n,
{
    if n > 0 {
        let prev = sphere_levels((n - 1) as nat);
        lemma_sphere_vertex_bound((n - 1) as nat);
        lemma_edge_keys_len(prev.0);
        lemma_first_occurrences_len(edge_keys(prev.0));
    }
}

/// The vertex given to the midpoint of an edge of a face is that of a listed edge.
proof fn lemma_midpoint_number_of(midpoints: Seq<EdgeKey>, base: nat, x: usize, y: usize)
    requires
        midpoints.contains(edge_key(x, y)),
        base + midpoints.len() <= usize::MAX,
    ensures
        base <= midpoint_number(midpoints, base, x, y) < base + midpoints.len(),
        midpoints[midpoint_number(midpoints, base, x, y) - base] == edge_key(x, y),
{
    let k = choose|k: int| 0 <= k < midpoints.len() && midpoints[k] == edge_key(x, y);
    assert(midpoint_number(midpoints, base, x, y) == base + k);
}

proof fn lemma_split_faces_proper(faces: Seq<Face>, base: int)
    requires
        faces_within(faces, base),
        proper_faces(faces),
        base >= 0,
        base + distinct_edges(faces).len() <= usize::MAX,
    ensures
        proper_faces(split_faces(faces, distinct_edges(faces), base as nat)),
{
    let mids = distinct_edges(faces);
    let out = split_faces(faces, mids, base as nat);
    lemma_first_occurrences_same_elements(edge_keys(faces));
    assert forall|k: int| #![trigger out[k]] 0 <= k < out.len() implies out[k][0] != out[k][1] && out[k][1]
        != out[k][2] && out[k][2] != out[k][0] by {
        let i = k / 4;
        let f = faces[i];
        let (a, b, c) = (f[0], f[1], f[2]);
        assert(a < base && b < base && c < base);
        assert(a != b && b != c && c != a);
        assert forall|e: int| 0 <= e < 3 implies mids.contains(#[trigger] face_edge_keys(f)[e]) by {
            lemma_edge_keys_index(faces, i, e);
            assert(edge_keys(faces).contains(face_edge_keys(f)[e]));
        }
        assert(mids.contains(face_edge_keys(f)[0]));
        assert(mids.contains(face_edge_keys(f)[1]));
        assert(mids.contains(face_edge_keys(f)[2]));
        lemma_midpoint_number_of(mids, base as nat, a, b);
        lemma_midpoint_number_of(mids, base as nat, b, c);
        lemma_midpoint_number_of(mids, base as nat, c, a);
        let ab = midpoint_number(mids, base as nat, a, b);
        let bc = midpoint_number(mids, base as nat, b, c);
        let ca = midpoint_number(mids, base as nat, c, a);
        assert(edge_key(a, b) != edge_key(b, c));
        assert(edge_key(b, c) != edge_key(c, a));
        assert(edge_key(c, a) != edge_key(a, b));
        assert(ab != bc && bc != ca && ca != ab);
        assert(out[k] == split_face(f, mids, base as nat)[k % 4]);
    }
}

/// Law: no subdivision makes a degenerate triangle: every face of the sphere, at every
/// level, has three distinct vertices (while its vertices can be numbered in a `usize`).
pub proof fn law_sphere_faces_proper(n: nat)
    requires
        20 * pow4(n) < usize::MAX,
    ensures
        proper_faces(sphere_levels(n).0),
    decreases n,
{
    if n == 0 {
        let t = icosahedron_face_table();
        assert forall|i: int| #![trigger t[i]] 0 <= i < t.len() implies t[i][0] != t[i][1] && t[i][1] != t[i][2]
            && t[i][2] != t[i][0] by {
        }
    } else {
        let m = (n - 1) as nat;
        lemma_pow4_monotone(m, n);
        law_sphere_faces_proper(m);
        law_sphere_well_formed(m);
        lemma_sphere_vertex_bound(n);
        let prev = sphere_levels(m);
        lemma_split_faces_proper(prev.0, (12 + prev.1.len()) as int);
    }
}

/// The corner after `t` in a face: `0 -> 1 -> 2 -> 0`.
pub open spec fn succ3(t: int) -> int {
    if t == 2 { 0 } else { t + 1 }
}

/// Some face walks from vertex `x` to vertex `y` along one of its edges.
pub open spec fn has_directed_edge(faces: Seq<Face>, x: usize, y: usize) -> bool {
    exists|j: int, s: int| 0 <= j < faces.len() && 0 <= s < 3 && #[trigger] faces[j][s] == x && faces[j][succ3(s)] == y
}

/// The mesh is closed and consistently wound: every edge that a face walks, some face
/// walks the other way.
pub open spec fn closed_mesh(faces: Seq<Face>) -> bool {
    forall|i: int, t: int|
        0 <= i < faces.len() && 0 <= t < 3 ==> #[trigger] has_directed_edge(faces, faces[i][succ3(t)], faces[i][t])
}

proof fn lemma_edge_witness(faces: Seq<Face>, j: int, s: int, x: usize, y: usize)
    requires
        0 <= j < faces.len(),
        0 <= s < 3,
        faces[j][s] == x,
        faces[j][succ3(s)] == y,
    ensures
        has_directed_edge(faces, x, y),
{
}

#[verifier::rlimit(60)]
proof fn lemma_icosahedron_closed()
    ensures
        closed_mesh(icosahedron_face_table()),
{
    let tab = icosahedron_face_table();
    assert forall|i: int, s: int| 0 <= i < tab.len() && 0 <= s < 3 implies #[trigger] has_directed_edge(
        tab,
        tab[i][succ3(s)],
        tab[i][s],
    ) by {
        if i == 0 {
            if s == 0 { lemma_edge_witness(tab, 4, 2, 11, 0); } else if s == 1 { lemma_edge_witness(tab, 6, 0, 5, 11); } else { lemma_edge_witness(tab, 1, 0, 0, 5); }
        } else if i == 1 {
            if s == 0 { lemma_edge_witness(tab, 0, 2, 5, 0); } else if s == 1 { lemma_edge_witness(tab, 5, 0, 1, 5); } else { lemma_edge_witness(tab, 2, 0, 0, 1); }
        } else if i == 2 {
            if s == 0 { lemma_edge_witness(tab, 1, 2, 1, 0); } else if s == 1 { lemma_edge_witness(tab, 9, 0, 7, 1); } else { lemma_edge_witness(tab, 3, 0, 0, 7); }
        } else if i == 3 {
            if s == 0 { lemma_edge_witness(tab, 2, 2, 7, 0); } else if s == 1 { lemma_edge_witness(tab, 8, 0, 10, 7); } else { lemma_edge_witness(tab, 4, 0, 0, 10); }
        } else if i == 4 {
            if s == 0 { lemma_edge_witness(tab, 3, 2, 10, 0); } else if s == 1 { lemma_edge_witness(tab, 7, 0, 11, 10); } else { lemma_edge_witness(tab, 0, 0, 0, 11); }
        } else if i == 5 {
            if s == 0 { lemma_edge_witness(tab, 1, 1, 5, 1); } else if s == 1 { lemma_edge_witness(tab, 15, 1, 9, 5); } else { lemma_edge_witness(tab, 19, 2, 1, 9); }
        } else if i == 6 {
            if s == 0 { lemma_edge_witness(tab, 0, 1, 11, 5); } else if s == 1 { lemma_edge_witness(tab, 16, 1, 4, 11); } else { lemma_edge_witness(tab, 15, 2, 5, 4); }
        } else if i == 7 {
            if s == 0 { lemma_edge_witness(tab, 4, 1, 10, 11); } else if s == 1 { lemma_edge_witness(tab, 17, 1, 2, 10); } else { lemma_edge_witness(tab, 16, 2, 11, 2); }
        } else if i == 8 {
            if s == 0 { lemma_edge_witness(tab, 3, 1, 7, 10); } else if s == 1 { lemma_edge_witness(tab, 18, 1, 6, 7); } else { lemma_edge_witness(tab, 17, 2, 10, 6); }
        } else if i == 9 {
            if s == 0 { lemma_edge_witness(tab, 2, 1, 1, 7); } else if s == 1 { lemma_edge_witness(tab, 19, 1, 8, 1); } else { lemma_edge_witness(tab, 18, 2, 7, 8); }
        } else if i == 10 {
            if s == 0 { lemma_edge_witness(tab, 14, 2, 9, 3); } else if s == 1 { lemma_edge_witness(tab, 15, 0, 4, 9); } else { lemma_edge_witness(tab, 11, 0, 3, 4); }
        } else if i == 11 {
            if s == 0 { lemma_edge_witness(tab, 10, 2, 4, 3); } else if s == 1 { lemma_edge_witness(tab, 16, 0, 2, 4); } else { lemma_edge_witness(tab, 12, 0, 3, 2); }
        } else if i == 12 {
            if s == 0 { lemma_edge_witness(tab, 11, 2, 2, 3); } else if s == 1 { lemma_edge_witness(tab, 17, 0, 6, 2); } else { lemma_edge_witness(tab, 13, 0, 3, 6); }
        } else if i == 13 {
            if s == 0 { lemma_edge_witness(tab, 12, 2, 6, 3); } else if s == 1 { lemma_edge_witness(tab, 18, 0, 8, 6); } else { lemma_edge_witness(tab, 14, 0, 3, 8); }
        } else if i == 14 {
            if s == 0 { lemma_edge_witness(tab, 13, 2, 8, 3); } else if s == 1 { lemma_edge_witness(tab, 19, 0, 9, 8); } else { lemma_edge_witness(tab, 10, 0, 3, 9); }
        } else if i == 15 {
            if s == 0 { lemma_edge_witness(tab, 10, 1, 9, 4); } else if s == 1 { lemma_edge_witness(tab, 5, 1, 5, 9); } else { lemma_edge_witness(tab, 6, 2, 4, 5); }
        } else if i == 16 {
            if s == 0 { lemma_edge_witness(tab, 11, 1, 4, 2); } else if s == 1 { lemma_edge_witness(tab, 6, 1, 11, 4); } else { lemma_edge_witness(tab, 7, 2, 2, 11); }
        } else if i == 17 {
            if s == 0 { lemma_edge_witness(tab, 12, 1, 2, 6); } else if s == 1 { lemma_edge_witness(tab, 7, 1, 10, 2); } else { lemma_edge_witness(tab, 8, 2, 6, 10); }
        } else if i == 18 {
            if s == 0 { lemma_edge_witness(tab, 13, 1, 6, 8); } else if s == 1 { lemma_edge_witness(tab, 8, 1, 7, 6); } else { lemma_edge_witness(tab, 9, 2, 8, 7); }
        } else if i == 19 {
            if s == 0 { lemma_edge_witness(tab, 14, 1, 8, 9); } else if s == 1 { lemma_edge_witness(tab, 9, 1, 1, 8); } else { lemma_edge_witness(tab, 5, 2, 9, 1); }
        }
    }
}

/// The midpoint of an edge is the same vertex whichever way the edge is walked.
proof fn lemma_midpoint_number_symmetric(midpoints: Seq<EdgeKey>, base: nat, x: usize, y: usize)
    requires
        midpoints.contains(edge_key(x, y)),
        no_duplicates(midpoints),
    ensures
        midpoint_number(midpoints, base, x, y) == midpoint_number(midpoints, base, y, x),
{
    assert(edge_key(x, y) == edge_key(y, x));
    let k1 = choose|k: int| 0 <= k < midpoints.len() && midpoints[k] == edge_key(x, y);
    let k2 = choose|k: int| 0 <= k < midpoints.len() && midpoints[k] == edge_key(y, x);
    assert(midpoints[k1] == edge_key(x, y));
    assert(midpoints[k2] == edge_key(y, x));
    assert(k1 == k2);
}

/// The four faces of a split face, written per corner: corner `r` keeps vertex `f[r]`
/// and the midpoints of the two edges at it; the last face joins the three midpoints.
proof fn lemma_split_face_corners(f: Face, midpoints: Seq<EdgeKey>, base: nat, r: int)
    requires
        0 <= r < 3,
    ensures
        split_face(f, midpoints, base).len() == 4,
        split_face(f, midpoints, base)[r] == [
            f[r],
            midpoint_number(midpoints, base, f[r], f[succ3(r)]),
            midpoint_number(midpoints, base, f[succ3(succ3(r))], f[r]),
        ],
        split_face(f, midpoints, base)[3][r] == midpoint_number(midpoints, base, f[r], f[succ3(r)]),
{
}

/// Every edge key of a face is among the distinct edges of the mesh.
proof fn lemma_face_edges_listed(faces: Seq<Face>, i: int, r: int)
    requires
        0 <= i < faces.len(),
        0 <= r < 3,
    ensures
        distinct_edges(faces).contains(edge_key(faces[i][r], faces[i][succ3(r)])),
{
    lemma_first_occurrences_same_elements(edge_keys(faces));
    lemma_edge_keys_index(faces, i, r);
    assert(face_edge_keys(faces[i])[r] == edge_key(faces[i][r], faces[i][succ3(r)]));
    assert(edge_keys(faces)[3 * i + r] == edge_key(faces[i][r], faces[i][succ3(r)]));
    assert(edge_keys(faces).contains(edge_key(faces[i][r], faces[i][succ3(r)])));
}

proof fn lemma_split_index(faces: Seq<Face>, midpoints: Seq<EdgeKey>, base: nat, i: int, r: int)
    requires
        0 <= i < faces.len(),
        0 <= r < 4,
    ensures
        split_faces(faces, midpoints, base).len() == 4 * faces.len(),
        0 <= 4 * i + r < 4 * faces.len(),
        split_faces(faces, midpoints, base)[4 * i + r] == split_face(faces[i], midpoints, base)[r],
{
    assert((4 * i + r) / 4 == i && (4 * i + r) % 4 == r);
}

#[verifier::rlimit(60)]
proof fn lemma_split_edge_reversed(faces: Seq<Face>, base: nat, i: int, r: int, t: int)
    requires
        closed_mesh(faces),
        0 <= i < faces.len(),
        0 <= r < 4,
        0 <= t < 3,
    ensures
        ({
            let out = split_faces(faces, distinct_edges(faces), base);
            has_directed_edge(out, out[4 * i + r][succ3(t)], out[4 * i + r][t])
        }),
{
    let mids = distinct_edges(faces);
    let out = split_faces(faces, mids, base);
    lemma_first_occurrences_same_elements(edge_keys(faces));
    lemma_split_index(faces, mids, base, i, r);
    let f = faces[i];
    if r == 3 {
        let q = succ3(t);
        lemma_split_face_corners(f, mids, base, t);
        lemma_split_face_corners(f, mids, base, q);
        lemma_split_index(faces, mids, base, i, q);
        lemma_edge_witness(out, 4 * i + q, 1, out[4 * i + 3][succ3(t)], out[4 * i + 3][t]);
    } else {
        let a = f[r];
        let b = f[succ3(r)];
        let c = f[succ3(succ3(r))];
        assert(succ3(succ3(succ3(r))) == r);
        lemma_split_face_corners(f, mids, base, r);
        if t == 0 {
            assert(has_directed_edge(faces, faces[i][succ3(r)], faces[i][r]));
            let (j, s) = choose|j: int, s: int|
                0 <= j < faces.len() && 0 <= s < 3 && #[trigger] faces[j][s] == b && faces[j][succ3(s)] == a;
            let u = succ3(s);
            assert(succ3(succ3(u)) == s);
            lemma_split_face_corners(faces[j], mids, base, u);
            lemma_split_index(faces, mids, base, j, u);
            lemma_face_edges_listed(faces, i, r);
            lemma_midpoint_number_symmetric(mids, base, a, b);
            lemma_edge_witness(out, 4 * j + u, 2, out[4 * i + r][succ3(t)], out[4 * i + r][t]);
        } else if t == 1 {
            let s2 = succ3(succ3(r));
            lemma_split_face_corners(f, mids, base, s2);
            lemma_split_index(faces, mids, base, i, 3);
            lemma_edge_witness(out, 4 * i + 3, s2, out[4 * i + r][succ3(t)], out[4 * i + r][t]);
        } else {
            let s2 = succ3(succ3(r));
            assert(has_directed_edge(faces, faces[i][succ3(s2)], faces[i][s2]));
            let (j, s) = choose|j: int, s: int|
                0 <= j < faces.len() && 0 <= s < 3 && #[trigger] faces[j][s] == a && faces[j][succ3(s)] == c;
            lemma_split_face_corners(faces[j], mids, base, s);
            lemma_split_index(faces, mids, base, j, s);
            lemma_face_edges_listed(faces, i, s2);
            lemma_midpoint_number_symmetric(mids, base, c, a);
            lemma_edge_witness(out, 4 * j + s, 0, out[4 * i + r][succ3(t)], out[4 * i + r][t]);
        }
    }
}

proof fn lemma_split_closed(faces: Seq<Face>, base: nat)
    requires
        closed_mesh(faces),
    ensures
        closed_mesh(split_faces(faces, distinct_edges(faces), base)),
{
    let out = split_faces(faces, distinct_edges(faces), base);
    assert forall|k: int, t: int| 0 <= k < out.len() && 0 <= t < 3 implies #[trigger] has_directed_edge(
        out,
        out[k][succ3(t)],
        out[k][t],
    ) by {
        let i = k / 4;
        let r = k % 4;
        assert(k == 4 * i + r);
        lemma_split_edge_reversed(faces, base, i, r, t);
    }
}

/// Law: the sphere is a closed surface at every level of subdivision: every edge that
/// one triangle walks, a neighbouring triangle walks the other way.
pub proof fn law_sphere_closed(n: nat)
    ensures
        closed_mesh(sphere_levels(n).0),
    decreases n,
{
    if n == 0 {
        lemma_icosahedron_closed();
    } else {
        let m = (n - 1) as nat;
        law_sphere_closed(m);
        let prev = sphere_levels(m);
        lemma_split_closed(prev.0, 12 + prev.1.len());
    }
}

/// `a * b`, written by cases on the small factor `a` (the corners' coordinates and
/// their differences have parts between -2 and 2) so that the solver evaluates it.
pub open spec fn times(a: int, b: int) -> int {
    if a == 0 {
        0
    } else if a == 1 {
        b
    } else if a == -1 {
        -b
    } else if a == 2 {
        b + b
    } else if a == -2 {
        -(b + b)
    } else {
        a * b
    }
}

/// The product of `x.0 + x.1·φ` and `y.0 + y.1·φ`, φ being the golden ratio (so
/// `φ² = φ + 1`), in the same form.
pub open spec fn golden_mul(x: (int, int), y: (int, int)) -> (int, int) {
    (times(x.0, y.0) + times(x.1, y.1), times(x.0, y.1) + times(x.1, y.0) + times(x.1, y.1))
}

pub open spec fn golden_add(x: (int, int), y: (int, int)) -> (int, int) {
    (x.0 + y.0, x.1 + y.1)
}

pub open spec fn golden_sub(x: (int, int), y: (int, int)) -> (int, int) {
    (x.0 - y.0, x.1 - y.1)
}

/// The twelve corners of the icosahedron the sphere is built from, by index:
/// `(-1, φ, 0), (1, φ, 0), (-1, -φ, 0), (1, -φ, 0), (0, -1, φ), (0, 1, φ), (0, -1, -φ),
/// (0, 1, -φ), (φ, 0, -1), (φ, 0, 1), (-φ, 0, -1), (-φ, 0, 1)`, each coordinate written
/// as `a + b·φ`.
pub open spec fn icosahedron_corner(i: usize) -> ((int, int), (int, int), (int, int)) {
    let (z, one, m1, phi, mphi) = ((0int, 0int), (1int, 0int), (-1int, 0int), (0int, 1int), (0int, -1int));
    if i == 0 { (m1, phi, z) }
    else if i == 1 { (one, phi, z) }
    else if i == 2 { (m1, mphi, z) }
    else if i == 3 { (one, mphi, z) }
    else if i == 4 { (z, m1, phi) }
    else if i == 5 { (z, one, phi) }
    else if i == 6 { (z, m1, mphi) }
    else if i == 7 { (z, one, mphi) }
    else if i == 8 { (phi, z, m1) }
    else if i == 9 { (phi, z, one) }
    else if i == 10 { (mphi, z, m1) }
    else { (mphi, z, one) }
}

/// The squared distance between two corners.
pub open spec fn corner_distance2(i: usize, j: usize) -> (int, int) {
    let (p, q) = (icosahedron_corner(i), icosahedron_corner(j));
    let (dx, dy, dz) = (golden_sub(p.0, q.0), golden_sub(p.1, q.1), golden_sub(p.2, q.2));
    golden_add(golden_add(golden_mul(dx, dx), golden_mul(dy, dy)), golden_mul(dz, dz))
}

/// The triple product `p · (q × r)` of three corners: positive when the triangle
/// `p q r` winds counter-clockwise seen from outside the solid.
pub open spec fn corner_triple(i: usize, j: usize, k: usize) -> (int, int) {
    let (p, q, r) = (icosahedron_corner(i), icosahedron_corner(j), icosahedron_corner(k));
    let c0 = golden_sub(golden_mul(q.1, r.2), golden_mul(q.2, r.1));
    let c1 = golden_sub(golden_mul(q.2, r.0), golden_mul(q.0, r.2));
    let c2 = golden_sub(golden_mul(q.0, r.1), golden_mul(q.1, r.0));
    golden_add(golden_add(golden_mul(p.0, c0), golden_mul(p.1, c1)), golden_mul(p.2, c2))
}

/// A face of the icosahedron: three corners joined by edges of squared length 4 (the
/// edge length of these corners; other pairs are farther apart), wound outward, with the
/// triple product `2 + 2φ` of every outward face.
pub open spec fn is_icosahedron_face(f: Face) -> bool {
    &&& f[0] < 12 && f[1] < 12 && f[2] < 12
    &&& corner_distance2(f[0], f[1]) == (4int, 0int)
    &&& corner_distance2(f[1], f[2]) == (4int, 0int)
    &&& corner_distance2(f[2], f[0]) == (4int, 0int)
    &&& corner_triple(f[0], f[1], f[2]) == (2int, 2int)
}

/// Law: the base faces are faces of the icosahedron over its corner positions: each
/// joins three corners pairwise at edge distance and is wound outward. (With
/// `law_sphere_closed`, every edge of one is walked back by another.)
pub proof fn law_icosahedron_faces_regular()
    ensures
        icosahedron_face_table().len() == 20,
        forall|i: int| 0 <= i < 20 ==> #[trigger] is_icosahedron_face(icosahedron_face_table()[i]),
{
    let t = icosahedron_face_table();
    assert forall|i: int| 0 <= i < 20 implies #[trigger] is_icosahedron_face(t[i]) by {
        if i == 0 {
            assert(t[i] == [0usize, 11, 5]);
        } else if i == 1 {
            assert(t[i] == [0usize, 5, 1]);
        } else if i == 2 {
            assert(t[i] == [0usize, 1, 7]);
        } else if i == 3 {
            assert(t[i] == [0usize, 7, 10]);
        } else if i == 4 {
            assert(t[i] == [0usize, 10, 11]);
        } else if i == 5 {
            assert(t[i] == [1usize, 5, 9]);
        } else if i == 6 {
            assert(t[i] == [5usize, 11, 4]);
        } else if i == 7 {
            assert(t[i] == [11usize, 10, 2]);
        } else if i == 8 {
            assert(t[i] == [10usize, 7, 6]);
        } else if i == 9 {
            assert(t[i] == [7usize, 1, 8]);
        } else if i == 10 {
            assert(t[i] == [3usize, 9, 4]);
        } else if i == 11 {
            assert(t[i] == [3usize, 4, 2]);
        } else if i == 12 {
            assert(t[i] == [3usize, 2, 6]);
        } else if i == 13 {
            assert(t[i] == [3usize, 6, 8]);
        } else if i == 14 {
            assert(t[i] == [3usize, 8, 9]);
        } else if i == 15 {
            assert(t[i] == [4usize, 9, 5]);
        } else if i == 16 {
            assert(t[i] == [2usize, 4, 11]);
        } else if i == 17 {
            assert(t[i] == [6usize, 2, 10]);
        } else if i == 18 {
            assert(t[i] == [8usize, 6, 7]);
        } else if i == 19 {
            assert(t[i] == [9usize, 8, 1]);
        }
    }
}

/// Barycentric coordinates, doubled, of vertex `v` in face `f` when the face is split
/// against `midpoints`: `(2, 0, 0)` for its first corner, `(1, 1, 0)` for the midpoint of
/// its first edge, and so on; `(0, 0, 0)` for a vertex that is neither a corner of `f`
/// nor the midpoint of one of its edges.
pub open spec fn split_barycentric(f: Face, midpoints: Seq<EdgeKey>, base: nat, v: usize) -> (int, int, int) {
    if v == f[0] {
        (2, 0, 0)
    } else if v == f[1] {
        (0, 2, 0)
    } else if v == f[2] {
        (0, 0, 2)
    } else if is_midpoint(midpoints, base, f[0], f[1], v) {
        (1, 1, 0)
    } else if is_midpoint(midpoints, base, f[1], f[2], v) {
        (0, 1, 1)
    } else if is_midpoint(midpoints, base, f[2], f[0], v) {
        (1, 0, 1)
    } else {
        (0, 0, 0)
    }
}

/// The determinant of three barycentric points: twice the signed area of their
/// triangle, in units where the whole face (doubled coordinates) measures 8.
pub open spec fn barycentric_area(p: (int, int, int), q: (int, int, int), r: (int, int, int)) -> int {
    times(p.0, times(q.1, r.2) - times(q.2, r.1)) - times(p.1, times(q.0, r.2) - times(q.2, r.0)) + times(
        p.2,
        times(q.0, r.1) - times(q.1, r.0),
    )
}

/// Child `g` of face `f` lies in `f` with its parent's winding and a quarter of its
/// area: its corners are corners or edge midpoints of `f`, and its barycentric area is
/// 2 of the face's 8.
pub open spec fn quarter_of(f: Face, g: Face, midpoints: Seq<EdgeKey>, base: nat) -> bool {
    let (p, q, r) = (
        split_barycentric(f, midpoints, base, g[0]),
        split_barycentric(f, midpoints, base, g[1]),
        split_barycentric(f, midpoints, base, g[2]),
    );
    &&& p.0 + p.1 + p.2 == 2 && q.0 + q.1 + q.2 == 2 && r.0 + r.1 + r.2 == 2
    &&& barycentric_area(p, q, r) == 2
}

/// Law: subdividing splits every face into four children that tile it: each child's
/// corners are corners or edge midpoints of its parent, each has the parent's winding
/// and a quarter of its area, and no two children are the same triangle.
pub proof fn law_split_children_tile(faces: Seq<Face>, base: int, i: int)
    requires
        faces_within(faces, base),
        proper_faces(faces),
        base >= 0,
        base + distinct_edges(faces).len() <= usize::MAX,
        0 <= i < faces.len(),
    ensures
        ({
            let out = split_faces(faces, distinct_edges(faces), base as nat);
            &&& forall|r: int| 0 <= r < 4 ==> #[trigger] quarter_of(faces[i], out[4 * i + r], distinct_edges(faces), base as nat)
            &&& forall|r: int, q: int|
                0 <= r < q < 4 ==> !same_face_corners(#[trigger] out[4 * i + r], #[trigger] out[4 * i + q])
        }),
{
    let mids = distinct_edges(faces);
    let out = split_faces(faces, mids, base as nat);
    let f = faces[i];
    let (a, b, c) = (f[0], f[1], f[2]);
    lemma_split_faces_within(faces, base);
    lemma_split_faces_proper(faces, base);
    assert(a < base && b < base && c < base);
    assert(a != b && b != c && c != a);
    lemma_face_edges_listed(faces, i, 0);
    lemma_face_edges_listed(faces, i, 1);
    lemma_face_edges_listed(faces, i, 2);
    lemma_midpoint_number_of(mids, base as nat, a, b);
    lemma_midpoint_number_of(mids, base as nat, b, c);
    lemma_midpoint_number_of(mids, base as nat, c, a);
    let ab = midpoint_number(mids, base as nat, a, b);
    let bc = midpoint_number(mids, base as nat, b, c);
    let ca = midpoint_number(mids, base as nat, c, a);
    assert(edge_key(a, b) != edge_key(b, c));
    assert(edge_key(b, c) != edge_key(c, a));
    assert(edge_key(c, a) != edge_key(a, b));
    assert(ab != bc && bc != ca && ca != ab);
    assert(split_barycentric(f, mids, base as nat, a) == (2int, 0int, 0int));
    assert(split_barycentric(f, mids, base as nat, b) == (0int, 2int, 0int));
    assert(split_barycentric(f, mids, base as nat, c) == (0int, 0int, 2int));
    assert(is_midpoint(mids, base as nat, a, b, ab));
    assert(split_barycentric(f, mids, base as nat, ab) == (1int, 1int, 0int));
    assert(!is_midpoint(mids, base as nat, a, b, bc));
    assert(is_midpoint(mids, base as nat, b, c, bc));
    assert(split_barycentric(f, mids, base as nat, bc) == (0int, 1int, 1int));
    assert(!is_midpoint(mids, base as nat, a, b, ca));
    assert(!is_midpoint(mids, base as nat, b, c, ca));
    assert(is_midpoint(mids, base as nat, c, a, ca));
    assert(split_barycentric(f, mids, base as nat, ca) == (1int, 0int, 1int));
    lemma_split_index(faces, mids, base as nat, i, 0);
    lemma_split_index(faces, mids, base as nat, i, 1);
    lemma_split_index(faces, mids, base as nat, i, 2);
    lemma_split_index(faces, mids, base as nat, i, 3);
    assert(out[4 * i] == [a, ab, ca]);
    assert(out[4 * i + 1] == [b, bc, ab]);
    assert(out[4 * i + 2] == [c, ca, bc]);
    assert(out[4 * i + 3] == [ab, bc, ca]);
    assert forall|r: int| 0 <= r < 4 implies #[trigger] quarter_of(f, out[4 * i + r], mids, base as nat) by {
        if r == 0 {
        } else if r == 1 {
        } else if r == 2 {
        } else {
        }
    }
}

/// Faces `f` and `g` join the same three vertices.
pub open spec fn same_face_corners(f: Face, g: Face) -> bool {
    &&& (f[0] == g[0] || f[0] == g[1] || f[0] == g[2])
    &&& (f[1] == g[0] || f[1] == g[1] || f[1] == g[2])
    &&& (f[2] == g[0] || f[2] == g[1] || f[2] == g[2])
}

} // verus!
