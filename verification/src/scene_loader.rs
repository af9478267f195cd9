//! The computational core of scene loading: assembling flat vertex
//! streams from indexed face data.
//!
//! Reading the scene file and decoding its materials and textures belong
//! to the asset-import collaborator outside this crate; it hands in plain
//! index and attribute data and receives the assembled streams back. Out
//! of range indices select nothing, mirroring a checked gather.

use vstd::prelude::*;

verus! {

/// Assembles flat vertex streams from indexed face data.
pub struct SceneLoader;

/// The indices of a list that fall inside a source of length `n`, in
/// order.
pub open spec fn in_range_indices_s(indices: Seq<u32>, n: int) -> Seq<u32>
    decreases indices.len(),
{
    if indices.len() == 0 {
        Seq::empty()
    } else if (indices[0] as int) < n {
        seq![indices[0]] + in_range_indices_s(indices.drop_first(), n)
    } else {
        in_range_indices_s(indices.drop_first(), n)
    }
}

/// The triangle faces of a face list flattened into one index stream;
/// faces that are not triangles — lines and points — are ignored.
pub open spec fn flat_triangle_indices_s(faces: Seq<Vec<u32>>) -> Seq<u32>
    decreases faces.len(),
{
    if faces.len() == 0 {
        Seq::empty()
    } else if faces[0]@.len() == 3 {
        faces[0]@ + flat_triangle_indices_s(faces.drop_first())
    } else {
        flat_triangle_indices_s(faces.drop_first())
    }
}

impl SceneLoader {
    /// Gather the converted source entries selected by `indices`, in
    /// order, skipping indices outside the source.
    pub fn extract_data<T: Copy, O, F: Fn(T) -> O>(indices: &[u32], source: &[T],
        converter: F) -> (r: Vec<O>)
        requires
            forall|i: int| 0 <= i < source@.len() ==> call_requires(
                converter,
                (source@[i],),
            ),
        ensures
            ({
                let sel = in_range_indices_s(indices@, source@.len() as int);
                r@.len() == sel.len() && (forall|k: int|
                    0 <= k < sel.len() ==> call_ensures(
                        converter,
                        (source@[sel[k] as int],),
                        #[trigger] r@[k],
                    ))
            }),
    {
        let ghost n = source@.len() as int;
        let mut r: Vec<O> = Vec::new();
        let ghost mut sel: Seq<u32> = Seq::empty();
        let mut j: usize = 0;
        proof {
            assert(indices@.skip(0) =~= indices@);
            assert(sel + in_range_indices_s(indices@, n) =~= in_range_indices_s(
                indices@,
                n,
            ));
        }
        while j < indices.len()
            invariant
                j <= indices@.len(),
                forall|i: int| 0 <= i < source@.len() ==> call_requires(
                    converter,
                    (source@[i],),
                ),
                n == source@.len() as int,
                r@.len() == sel.len(),
                forall|k: int| 0 <= k < sel.len() ==> (#[trigger] sel[k] as int) < n,
                forall|k: int| 0 <= k < sel.len() ==> call_ensures(
                    converter,
                    (source@[sel[k] as int],),
                    #[trigger] r@[k],
                ),
                in_range_indices_s(indices@, n) == sel + in_range_indices_s(
                    indices@.skip(j as int),
                    n,
                ),
            decreases indices@.len() - j,
        {
            proof {
                assert(indices@.skip(j as int)[0] == indices@[j as int]);
                assert(indices@.skip(j as int).drop_first() == indices@.skip(j as int + 1));
            }
            let idx = indices[j];
            if (idx as usize) < source.len() {
                let value = source[idx as usize];
                let ghost r0 = r@;
                let converted = converter(value);
                r.push(converted);
                proof {
                    let old_sel = sel;
                    sel = old_sel.push(idx);
                    assert(old_sel + (seq![idx] + in_range_indices_s(
                        indices@.skip(j as int + 1),
                        n,
                    )) =~= old_sel.push(idx) + in_range_indices_s(
                        indices@.skip(j as int + 1),
                        n,
                    ));
                    assert forall|k: int| 0 <= k < sel.len() implies (#[trigger] sel[k] as int)
                        < n by {
                        if k < old_sel.len() {
                            assert(sel[k] == old_sel[k]);
                        } else {
                            assert(sel[k] == idx);
                        }
                    }
                    assert forall|k: int| 0 <= k < sel.len() implies call_ensures(
                        converter,
                        (source@[sel[k] as int],),
                        #[trigger] r@[k],
                    ) by {
                        if k < old_sel.len() {
                            assert(sel[k] == old_sel[k]);
                            assert(r@[k] == r0[k]);
                        } else {
                            assert(sel[k] == idx);
                            assert(r@[k] == converted);
                        }
                    }
                }
            }
            j = j + 1;
        }
        proof {
            assert(in_range_indices_s(indices@.skip(indices@.len() as int), n).len() == 0);
            assert(sel + in_range_indices_s(indices@.skip(indices@.len() as int), n)
                =~= sel);
        }
        r
    }

    /// Append the converted source entries selected by `indices` to an
    /// existing stream.
    pub fn extend_data<T, O: Copy, F: Fn(O) -> T>(extendable: &mut Vec<T>, indices: &[u32],
        source: &[O], converter: F)
        requires
            forall|i: int| 0 <= i < source@.len() ==> call_requires(
                converter,
                (source@[i],),
            ),
        ensures
            ({
                let sel = in_range_indices_s(indices@, source@.len() as int);
                final(extendable)@.len() == old(extendable)@.len() + sel.len() && (forall|
                    k: int,
                |
                    0 <= k < old(extendable)@.len() ==> final(extendable)@[k] == old(
                        extendable,
                    )@[k]) && (forall|k: int|
                    0 <= k < sel.len() ==> call_ensures(
                        converter,
                        (source@[sel[k] as int],),
                        #[trigger] final(extendable)@[old(extendable)@.len() + k],
                    ))
            }),
    {
        let mut gathered = Self::extract_data(indices, source, converter);
        extendable.append(&mut gathered);
    }

    /// Bring every attribute stream to the length of the scalar stream,
    /// padding short streams with the given fill values; the streams that
    /// already match are untouched.
    pub fn normalize_data<S, X: Copy, Y: Copy, Z: Copy, A: Copy>(scalar: &[S], x: &mut Vec<X>,
        fill_x: X, y: &mut Vec<Y>, fill_y: Y, z: &mut Vec<Z>, fill_z: Z, a: &mut Vec<A>,
        fill_a: A)
        ensures
            resized_s(old(x)@, scalar@.len() as int, fill_x) == final(x)@,
            resized_s(old(y)@, scalar@.len() as int, fill_y) == final(y)@,
            resized_s(old(z)@, scalar@.len() as int, fill_z) == final(z)@,
            resized_s(old(a)@, scalar@.len() as int, fill_a) == final(a)@,
    {
        resize_to(x, scalar.len(), fill_x);
        resize_to(y, scalar.len(), fill_y);
        resize_to(z, scalar.len(), fill_z);
        resize_to(a, scalar.len(), fill_a);
    }

    /// Flatten the triangle faces of a face list into one index stream,
    /// ignoring faces that are not triangles.
    pub fn collect_triangle_indices(faces: &Vec<Vec<u32>>) -> (r: Vec<u32>)
        ensures
            r@ == flat_triangle_indices_s(faces@),
    {
        let mut r: Vec<u32> = Vec::new();
        let n = faces.len();
        proof {
            assert(faces@.skip(0) =~= faces@);
            assert(Seq::<u32>::empty() + flat_triangle_indices_s(faces@)
                =~= flat_triangle_indices_s(faces@));
        }
        for j in 0..n
            invariant
                n == faces@.len(),
                flat_triangle_indices_s(faces@) == r@ + flat_triangle_indices_s(
                    faces@.skip(j as int),
                ),
            decreases n - j,
        {
            proof {
                assert(faces@.skip(j as int)[0] == faces@[j as int]);
                assert(faces@.skip(j as int).drop_first() == faces@.skip(
                    j as int + 1));
            }
            let face = &faces[j];
            if face.len() == 3 {
                let ghost r0 = r@;
                r.push(face[0]);
                r.push(face[1]);
                r.push(face[2]);
                proof {
                    assert(faces@[j as int]@ =~= seq![face@[0], face@[1], face@[2]]);
                    assert(r@ =~= r0 + faces@[j as int]@);
                    assert(r0 + (faces@[j as int]@ + flat_triangle_indices_s(
                        faces@.skip(j as int + 1),
                    )) =~= r@ + flat_triangle_indices_s(faces@.skip(j as int + 1)));
                }
            }
        }
        proof {
            assert(flat_triangle_indices_s(faces@.skip(n as int)).len() == 0);
            assert(r@ + flat_triangle_indices_s(faces@.skip(n as int)) =~= r@);
        }
        r
    }
}

/// A stream brought to the target length: truncated when longer, padded
/// with the fill when shorter.
pub open spec fn resized_s<T>(s: Seq<T>, n: int, fill: T) -> Seq<T> {
    if s.len() >= n {
        s.take(n)
    } else {
        s + Seq::new((n - s.len()) as nat, |i: int| fill)
    }
}

/// Bring a stream to the target length: pop while longer, push the fill
/// while shorter.
fn resize_to<T: Copy>(v: &mut Vec<T>, n: usize, fill: T)
    ensures
        final(v)@ == resized_s(old(v)@, n as int, fill),
{
    while v.len() > n
        invariant
            v@.len() >= n ==> v@ =~= old(v)@.take(v@.len() as int),
            v@.len() < n ==> v@ == old(v)@,
            old(v)@.len() >= v@.len(),
        decreases v@.len(),
    {
        proof {
            assert(old(v)@.take(v@.len() as int).drop_last() =~= old(v)@.take(
                v@.len() as int - 1));
        }
        v.pop();
    }
    let ghost base = v@;
    while v.len() < n
        invariant
            base.len() <= n,
            base.len() <= v@.len() <= n,
            v@.take(base.len() as int) =~= base,
            forall|k: int| base.len() <= k < v@.len() ==> v@[k] == fill,
        decreases n - v@.len(),
    {
        v.push(fill);
    }
    proof {
        if old(v)@.len() >= n {
            assert(v@ =~= old(v)@.take(n as int));
        } else {
            assert(v@ =~= old(v)@ + Seq::new((n - old(v)@.len()) as nat, |i: int| fill));
        }
    }
}

} // verus!
