use vstd::prelude::*;

verus! {

/// Why a point set gives no terrain surface.
#[derive(Clone, Copy, Debug, PartialEq, Eq, Structural)]
pub enum TopographyError {
    /// Fewer than three points.
    InsufficientPoints,
    /// The triangulation holds no triangle (all points on one line).
    DegenerateTriangulation,
    /// The index list is not a list of whole triangles over the points.
    MalformedTriangles,
}

/// An index list describes whole triangles whose corners are among `n` points.
pub open spec fn valid_triangles(n: nat, triangles: Seq<usize>) -> bool {
    &&& triangles.len() % 3 == 0
    &&& forall|p: int| 0 <= p < triangles.len() ==> triangles[p] < n
}

/// The outcome owed for `n` points triangulated into `triangles`.
pub open spec fn triangulation_outcome(n: nat, triangles: Seq<usize>) -> Result<(), TopographyError> {
    if n < 3 {
        Err(TopographyError::InsufficientPoints)
    } else if triangles.len() == 0 {
        Err(TopographyError::DegenerateTriangulation)
    } else if !valid_triangles(n, triangles) {
        Err(TopographyError::MalformedTriangles)
    } else {
        Ok(())
    }
}

/// Checks a triangle index list computed for `n_points` points.
pub fn check_triangulation(n_points: usize, triangles: &Vec<usize>) -> (r: Result<(), TopographyError>)
    ensures
        r == triangulation_outcome(n_points as nat, triangles@),
{
    if n_points < 3 {
        return Err(TopographyError::InsufficientPoints);
    }
    if triangles.len() == 0 {
        return Err(TopographyError::DegenerateTriangulation);
    }
    if triangles.len() % 3 != 0 {
        return Err(TopographyError::MalformedTriangles);
    }
    let mut p: usize = 0;
    while p < triangles.len()
        invariant
            p <= triangles.len(),
            n_points >= 3,
            triangles.len() > 0,
            triangles.len() % 3 == 0,
            forall|q: int| 0 <= q < p ==> triangles@[q] < n_points,
        decreases triangles.len() - p,
    {
        if triangles[p] >= n_points {
            assert(!valid_triangles(n_points as nat, triangles@));
            return Err(TopographyError::MalformedTriangles);
        }
        p = p + 1;
    }
    Ok(())
}

/// The triangles, by index, that have `v` as a corner, once per such corner,
/// in the order of the index list.
pub open spec fn faces_touching(triangles: Seq<usize>, v: usize) -> Seq<usize>
    decreases triangles.len(),
{
    if triangles.len() == 0 {
        seq![]
    } else {
        let rest = faces_touching(triangles.drop_last(), v);
        if triangles.last() == v {
            rest.push(((triangles.len() - 1) / 3) as usize)
        } else {
            rest
        }
    }
}

/// For each of `n_points` vertices, the triangles that share it: the faces
/// whose normals make up the vertex normal. A vertex with none is isolated
/// and takes the default normal.
pub fn vertex_faces(n_points: usize, triangles: &Vec<usize>) -> (r: Vec<Vec<usize>>)
    requires
        valid_triangles(n_points as nat, triangles@),
    ensures
        r.len() == n_points,
        forall|v: int| 0 <= v < n_points ==> r@[v]@ == faces_touching(triangles@, v as usize),
{
    let mut r: Vec<Vec<usize>> = Vec::new();
    let mut v: usize = 0;
    while v < n_points
        invariant
            v <= n_points,
            r.len() == v,
            forall|w: int| 0 <= w < v ==> r@[w]@ == Seq::<usize>::empty(),
        decreases n_points - v,
    {
        r.push(Vec::new());
        v = v + 1;
    }
    let mut p: usize = 0;
    while p < triangles.len()
        invariant
            p <= triangles.len(),
            valid_triangles(n_points as nat, triangles@),
            r.len() == n_points,
            forall|w: int|
                0 <= w < n_points ==> r@[w]@ == faces_touching(
                    triangles@.subrange(0, p as int),
                    w as usize,
                ),
        decreases triangles.len() - p,
    {
        let ghost prefix = triangles@.subrange(0, p as int + 1);
        assert(prefix.drop_last() =~= triangles@.subrange(0, p as int));
        assert(prefix.last() == triangles@[p as int]);
        let corner = triangles[p];
        let mut faces = r[corner].clone();
        faces.push(p / 3);
        r.set(corner, faces);
        p = p + 1;
    }
    assert(triangles@.subrange(0, triangles.len() as int) =~= triangles@);
    r
}


/// Checks a triangle index list computed for `n_points` points and, where it
/// describes a surface, lists for each vertex the triangles that share it.
pub fn surface_faces(n_points: usize, triangles: &Vec<usize>) -> (r: Result<Vec<Vec<usize>>, TopographyError>)
    ensures
        match r {
            Ok(faces) => {
                &&& triangulation_outcome(n_points as nat, triangles@) == Ok::<(), TopographyError>(())
                &&& faces.len() == n_points
                &&& forall|v: int|
                    0 <= v < n_points ==> (#[trigger] faces@[v])@ == faces_touching(triangles@, v as usize)
            },
            Err(e) => triangulation_outcome(n_points as nat, triangles@) == Err::<(), TopographyError>(e),
        },
{
    match check_triangulation(n_points, triangles) {
        Ok(()) => Ok(vertex_faces(n_points, triangles)),
        Err(e) => Err(e),
    }
}

/// A vertex is listed with no face exactly when no triangle has it as a
/// corner (it then takes the default normal), and every face listed for it
/// is a triangle that has it as a corner.
pub proof fn lemma_faces_touching_exact(triangles: Seq<usize>, v: usize)
    requires
        triangles.len() <= usize::MAX,
    ensures
        faces_touching(triangles, v).len() == 0 <==> forall|p: int|
            0 <= p < triangles.len() ==> triangles[p] != v,
        forall|k: int|
            0 <= k < faces_touching(triangles, v).len() ==> exists|p: int|
                0 <= p < triangles.len() && triangles[p] == v && #[trigger] faces_touching(
                    triangles,
                    v,
                )[k] == p / 3,
    decreases triangles.len(),
{
    if triangles.len() > 0 {
        let rest = triangles.drop_last();
        lemma_faces_touching_exact(rest, v);
        let ft = faces_touching(triangles, v);
        let fr = faces_touching(rest, v);
        assert forall|p: int| 0 <= p < rest.len() implies rest[p] == triangles[p] by {}
        assert forall|k: int| 0 <= k < ft.len() implies exists|p: int|
            0 <= p < triangles.len() && triangles[p] == v && #[trigger] ft[k] == p / 3 by {
            if k < fr.len() {
                assert(ft[k] == fr[k]);
                let p = choose|p: int| 0 <= p < rest.len() && rest[p] == v && fr[k] == p / 3;
                assert(triangles[p] == v);
            } else {
                let p = triangles.len() - 1;
                assert(triangles[p] == v && ft[k] == p / 3);
            }
        }
        if ft.len() == 0 {
            assert(triangles.last() != v);
            assert forall|p: int| 0 <= p < triangles.len() implies triangles[p] != v by {
                if p < rest.len() {
                    assert(rest[p] == triangles[p]);
                }
            }
        }
    }
}

} // verus!
