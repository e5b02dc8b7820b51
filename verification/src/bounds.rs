//! The bounding box of all vertex positions of a document, and the offset that
//! moves its bottom centre to the origin.
//!
//! Numbers are handled by their bit patterns; comparing and adding them is left to
//! functions that the caller supplies.

use vstd::prelude::*;
use vstd::slice::slice_subrange;
use crate::document::{Attribute, Document, DocumentView, Mesh, MeshView, PrimitiveView};
use crate::relocate::{callable, record_start};
use crate::words::{negate, negated, read_record, record_at, Vec3};

verus! {

/// Record `i` of accessor `idx`, read from the bytes that follow the start of its
/// buffer view.
pub open spec fn position_at(source: DocumentView, blob: Seq<u8>, idx: int, i: int) -> Vec3 {
    let acc = source.accessors[idx];
    let view = source.buffer_views[acc.buffer_view->0 as int];
    record_at(
        blob.subrange(view.start(), blob.len() as int),
        record_start(acc.first_record(), view.record_stride(), i),
    )
}

/// Every record of accessor `idx` can be read: the accessor and its buffer view
/// exist, the view starts inside the blob, and each record ends inside the blob.
pub open spec fn positions_readable(source: DocumentView, blob: Seq<u8>, idx: int) -> bool {
    &&& 0 <= idx < source.accessors.len()
    &&& source.accessors[idx].buffer_view is Some
    &&& source.accessors[idx].buffer_view->0 < source.buffer_views.len()
    &&& {
        let acc = source.accessors[idx];
        let view = source.buffer_views[acc.buffer_view->0 as int];
        &&& view.start() <= blob.len()
        &&& forall|i: int|
            0 <= i < acc.count ==> #[trigger] record_start(
                acc.first_record(),
                view.record_stride(),
                i,
            ) + 12 <= blob.len() - view.start()
    }
}

/// The records of accessor `idx` as positions, or `None` where one of them cannot
/// be read.
pub open spec fn position_data(source: DocumentView, blob: Seq<u8>, idx: int) -> Option<Seq<Vec3>> {
    if positions_readable(source, blob, idx) {
        Some(
            Seq::new(
                source.accessors[idx].count as nat,
                |i: int| position_at(source, blob, idx, i),
            ),
        )
    } else {
        None
    }
}

/// Reads the records of accessor `accessor_idx` as positions: three little-endian
/// words each, record `i` at the accessor's offset plus `i` strides, counted from
/// the start of the accessor's buffer view. The stride is twelve bytes where the
/// view names none.
pub fn get_position_data(o_blob: &[u8], o_json: &Document, accessor_idx: usize) -> (r: Option<
    Vec<Vec3>,
>)
    ensures
        match position_data(o_json@, o_blob@, accessor_idx as int) {
            Some(positions) => r matches Some(v) && v@ == positions,
            None => r is None,
        },
{
    if accessor_idx >= o_json.accessors.len() {
        return None;
    }
    let acc = o_json.accessors[accessor_idx];
    let idx_view = match acc.buffer_view {
        Some(v) => v,
        None => {
            return None;
        },
    };
    if idx_view >= o_json.buffer_views.len() {
        return None;
    }
    let view = o_json.buffer_views[idx_view];
    let offset: usize = match view.byte_offset {
        Some(o) => o,
        None => 0,
    };
    let acc_offset: usize = match acc.byte_offset {
        Some(o) => o,
        None => 0,
    };
    let stride: usize = match view.byte_stride {
        Some(s) => s,
        None => 12,
    };
    let count: usize = acc.count;
    let total: usize = o_blob.len();
    if offset > total {
        return None;
    }
    let data = slice_subrange(o_blob, offset, total);
    let len: usize = data.len();
    let ghost source = o_json@;
    let ghost idx = accessor_idx as int;
    let mut positions: Vec<Vec3> = Vec::new();
    let mut i: usize = 0;
    let mut start: usize = acc_offset;
    while i < count
        invariant
            i <= count,
            count == acc.count,
            len == data@.len(),
            len == o_blob@.len() - offset,
            data@ == o_blob@.subrange(offset as int, o_blob@.len() as int),
            source == o_json@,
            idx == accessor_idx,
            0 <= idx < source.accessors.len(),
            source.accessors[idx] == acc,
            acc.buffer_view == Some(idx_view),
            idx_view < source.buffer_views.len(),
            source.buffer_views[idx_view as int] == view,
            view.start() == offset,
            acc.first_record() == acc_offset,
            view.record_stride() == stride,
            i < count ==> start as int == record_start(acc_offset as int, stride as int, i as int),
            positions@.len() == i,
            forall|q: int| 0 <= q < i ==> positions@[q] == position_at(source, o_blob@, idx, q),
            forall|q: int|
                0 <= q < i ==> #[trigger] record_start(acc_offset as int, stride as int, q) + 12
                    <= len,
        decreases count - i,
    {
        if start > len || len - start < 12 {
            assert(!positions_readable(source, o_blob@, idx)) by {
                assert(record_start(acc.first_record(), view.record_stride(), i as int) + 12 > len);
            }
            return None;
        }
        positions.push(read_record(data, start));
        i = i + 1;
        if i < count {
            proof {
                assert(i * stride == (i - 1) * stride + stride) by (nonlinear_arith);
            }
            match start.checked_add(stride) {
                Some(next) => {
                    start = next;
                },
                None => {
                    assert(!positions_readable(source, o_blob@, idx)) by {
                        assert(record_start(acc.first_record(), view.record_stride(), i as int)
                            + 12 > len);
                    }
                    return None;
                },
            }
        }
    }
    assert(positions@ =~= position_data(source, o_blob@, idx)->0);
    Some(positions)
}

/// An axis-aligned box given by two corners.
#[derive(Clone, Copy, Debug, PartialEq, Eq)]
pub struct Bounds {
    pub min: Vec3,
    pub max: Vec3,
}

/// The bit pattern of positive infinity.
pub const POSITIVE_INFINITY: u32 = 0x7F80_0000;

/// The bit pattern of negative infinity.
pub const NEGATIVE_INFINITY: u32 = 0xFF80_0000;

/// The box that holds no point yet: its lower corner at positive infinity, its
/// upper corner at negative infinity.
pub open spec fn empty_bounds() -> Bounds {
    Bounds {
        min: Vec3 { x: POSITIVE_INFINITY, y: POSITIVE_INFINITY, z: POSITIVE_INFINITY },
        max: Vec3 { x: NEGATIVE_INFINITY, y: NEGATIVE_INFINITY, z: NEGATIVE_INFINITY },
    }
}

/// `after` is `before` widened by point `p`: each component of the lower corner
/// is what `lower` returns for it and the component of `p`, and each component of
/// the upper corner what `upper` returns.
pub open spec fn widened<L: Fn(u32, u32) -> u32, U: Fn(u32, u32) -> u32>(
    lower: L,
    upper: U,
    before: Bounds,
    p: Vec3,
    after: Bounds,
) -> bool {
    &&& call_ensures(lower, (before.min.x, p.x), after.min.x)
    &&& call_ensures(lower, (before.min.y, p.y), after.min.y)
    &&& call_ensures(lower, (before.min.z, p.z), after.min.z)
    &&& call_ensures(upper, (before.max.x, p.x), after.max.x)
    &&& call_ensures(upper, (before.max.y, p.y), after.max.y)
    &&& call_ensures(upper, (before.max.z, p.z), after.max.z)
}

/// `end` is `start` widened by the points of `points`, one after the other.
pub open spec fn grown<L: Fn(u32, u32) -> u32, U: Fn(u32, u32) -> u32>(
    lower: L,
    upper: U,
    start: Bounds,
    points: Seq<Vec3>,
    end: Bounds,
) -> bool
    decreases points.len(),
{
    if points.len() == 0 {
        end == start
    } else {
        exists|mid: Bounds|
            #![trigger widened(lower, upper, mid, points.last(), end)]
            grown(lower, upper, start, points.drop_last(), mid) && widened(
                lower,
                upper,
                mid,
                points.last(),
                end,
            )
    }
}

/// `end` is `start` widened by the points of every sequence of `clouds`, one
/// sequence after the other.
pub open spec fn swept<L: Fn(u32, u32) -> u32, U: Fn(u32, u32) -> u32>(
    lower: L,
    upper: U,
    start: Bounds,
    clouds: Seq<Seq<Vec3>>,
    end: Bounds,
) -> bool
    decreases clouds.len(),
{
    if clouds.len() == 0 {
        end == start
    } else {
        exists|mid: Bounds|
            #![trigger grown(lower, upper, mid, clouds.last(), end)]
            swept(lower, upper, start, clouds.drop_last(), mid) && grown(
                lower,
                upper,
                mid,
                clouds.last(),
                end,
            )
    }
}

/// Sweeping over two lists in turn is sweeping over their concatenation.
pub proof fn lemma_swept_concat<L: Fn(u32, u32) -> u32, U: Fn(u32, u32) -> u32>(
    lower: L,
    upper: U,
    a: Bounds,
    first: Seq<Seq<Vec3>>,
    b: Bounds,
    second: Seq<Seq<Vec3>>,
    c: Bounds,
)
    requires
        swept(lower, upper, a, first, b),
        swept(lower, upper, b, second, c),
    ensures
        swept(lower, upper, a, first + second, c),
    decreases second.len(),
{
    if second.len() == 0 {
        assert(first + second =~= first);
    } else {
        let mid = choose|mid: Bounds|
            #![trigger grown(lower, upper, mid, second.last(), c)]
            swept(lower, upper, b, second.drop_last(), mid) && grown(
                lower,
                upper,
                mid,
                second.last(),
                c,
            );
        lemma_swept_concat(lower, upper, a, first, b, second.drop_last(), mid);
        assert((first + second).drop_last() =~= first + second.drop_last());
        assert((first + second).last() == second.last());
    }
}

/// The position data of the position attributes among `attrs`, in order; an
/// attribute whose data cannot be read contributes nothing.
pub open spec fn attribute_clouds(source: DocumentView, blob: Seq<u8>, attrs: Seq<Attribute>) -> Seq<
    Seq<Vec3>,
>
    decreases attrs.len(),
{
    if attrs.len() == 0 {
        Seq::empty()
    } else {
        let rest = attribute_clouds(source, blob, attrs.drop_last());
        let a = attrs.last();
        if a.semantic is Positions && position_data(source, blob, a.accessor as int) is Some {
            rest.push(position_data(source, blob, a.accessor as int)->0)
        } else {
            rest
        }
    }
}

/// The position data of the primitives `primitives`, in order.
pub open spec fn primitive_clouds(
    source: DocumentView,
    blob: Seq<u8>,
    primitives: Seq<PrimitiveView>,
) -> Seq<Seq<Vec3>>
    decreases primitives.len(),
{
    if primitives.len() == 0 {
        Seq::empty()
    } else {
        primitive_clouds(source, blob, primitives.drop_last()) + attribute_clouds(
            source,
            blob,
            primitives.last().attributes,
        )
    }
}

/// The position data of the meshes `meshes`, in order.
pub open spec fn mesh_clouds(source: DocumentView, blob: Seq<u8>, meshes: Seq<MeshView>) -> Seq<
    Seq<Vec3>,
>
    decreases meshes.len(),
{
    if meshes.len() == 0 {
        Seq::empty()
    } else {
        mesh_clouds(source, blob, meshes.drop_last()) + primitive_clouds(
            source,
            blob,
            meshes.last().primitives,
        )
    }
}

/// All position data that the meshes of `source` reach, one sequence per
/// position attribute that can be read.
pub open spec fn position_clouds(source: DocumentView, blob: Seq<u8>) -> Seq<Seq<Vec3>> {
    mesh_clouds(source, blob, source.meshes)
}

/// `lower` and `upper` may be called on every pair of bit patterns.
pub open spec fn comparable<L: Fn(u32, u32) -> u32, U: Fn(u32, u32) -> u32>(
    lower: L,
    upper: U,
) -> bool {
    callable(lower) && callable(upper)
}

/// Widens `bounds` by every point of `points`.
fn grow<L: Fn(u32, u32) -> u32, U: Fn(u32, u32) -> u32>(
    bounds: Bounds,
    points: &Vec<Vec3>,
    lower: &L,
    upper: &U,
) -> (r: Bounds)
    requires
        comparable(*lower, *upper),
    ensures
        grown(*lower, *upper, bounds, points@, r),
{
    let mut current = bounds;
    let mut i: usize = 0;
    assert(points@.take(0) =~= Seq::empty());
    while i < points.len()
        invariant
            i <= points@.len(),
            comparable(*lower, *upper),
            grown(*lower, *upper, bounds, points@.take(i as int), current),
        decreases points@.len() - i,
    {
        let p = points[i];
        let ghost mid = current;
        current =
        Bounds {
            min: Vec3 {
                x: lower(current.min.x, p.x),
                y: lower(current.min.y, p.y),
                z: lower(current.min.z, p.z),
            },
            max: Vec3 {
                x: upper(current.max.x, p.x),
                y: upper(current.max.y, p.y),
                z: upper(current.max.z, p.z),
            },
        };
        proof {
            let next = points@.take(i + 1);
            assert(next.drop_last() =~= points@.take(i as int));
            assert(next.last() == p);
            assert(widened(*lower, *upper, mid, next.last(), current));
        }
        i = i + 1;
    }
    assert(points@.take(i as int) =~= points@);
    current
}

/// Widens `bounds` by the position data of the attributes `attrs`, and counts the
/// position attributes whose data could be read.
fn sweep_attributes<L: Fn(u32, u32) -> u32, U: Fn(u32, u32) -> u32>(
    o_blob: &[u8],
    o_json: &Document,
    attrs: &Vec<Attribute>,
    bounds: Bounds,
    found: bool,
    lower: &L,
    upper: &U,
) -> (r: (Bounds, bool))
    requires
        comparable(*lower, *upper),
    ensures
        swept(*lower, *upper, bounds, attribute_clouds(o_json@, o_blob@, attrs@), r.0),
        r.1 == (found || attribute_clouds(o_json@, o_blob@, attrs@).len() > 0),
{
    let mut current = bounds;
    let mut any = found;
    let mut k: usize = 0;
    assert(attrs@.take(0) =~= Seq::empty());
    while k < attrs.len()
        invariant
            k <= attrs@.len(),
            comparable(*lower, *upper),
            swept(
                *lower,
                *upper,
                bounds,
                attribute_clouds(o_json@, o_blob@, attrs@.take(k as int)),
                current,
            ),
            any == (found || attribute_clouds(o_json@, o_blob@, attrs@.take(k as int)).len() > 0),
        decreases attrs@.len() - k,
    {
        let a = attrs[k];
        let ghost seen = attribute_clouds(o_json@, o_blob@, attrs@.take(k as int));
        proof {
            let next = attrs@.take(k + 1);
            assert(next.drop_last() =~= attrs@.take(k as int));
            assert(next.last() == a);
        }
        if a.semantic.is_positions() {
            if let Some(positions) = get_position_data(o_blob, o_json, a.accessor) {
                let ghost mid = current;
                current = grow(current, &positions, lower, upper);
                any = true;
                proof {
                    let clouds = seen.push(positions@);
                    assert(clouds.drop_last() =~= seen);
                    assert(clouds.last() == positions@);
                    assert(grown(*lower, *upper, mid, clouds.last(), current));
                }
            }
        }
        k = k + 1;
    }
    assert(attrs@.take(k as int) =~= attrs@);
    (current, any)
}

/// Widens `bounds` by the position data of the primitives `primitives`.
fn sweep_primitives<L: Fn(u32, u32) -> u32, U: Fn(u32, u32) -> u32>(
    o_blob: &[u8],
    o_json: &Document,
    mesh: &Mesh,
    bounds: Bounds,
    found: bool,
    lower: &L,
    upper: &U,
) -> (r: (Bounds, bool))
    requires
        comparable(*lower, *upper),
    ensures
        swept(*lower, *upper, bounds, primitive_clouds(o_json@, o_blob@, mesh@.primitives), r.0),
        r.1 == (found || primitive_clouds(o_json@, o_blob@, mesh@.primitives).len() > 0),
{
    let mut current = bounds;
    let mut any = found;
    let mut j: usize = 0;
    assert(mesh@.primitives.take(0) =~= Seq::empty());
    while j < mesh.primitives.len()
        invariant
            j <= mesh.primitives@.len(),
            mesh@.primitives.len() == mesh.primitives@.len(),
            comparable(*lower, *upper),
            swept(
                *lower,
                *upper,
                bounds,
                primitive_clouds(o_json@, o_blob@, mesh@.primitives.take(j as int)),
                current,
            ),
            any == (found || primitive_clouds(
                o_json@,
                o_blob@,
                mesh@.primitives.take(j as int),
            ).len() > 0),
        decreases mesh.primitives@.len() - j,
    {
        let p = &mesh.primitives[j];
        let ghost seen = primitive_clouds(o_json@, o_blob@, mesh@.primitives.take(j as int));
        let ghost mid = current;
        proof {
            let next = mesh@.primitives.take(j + 1);
            assert(next.drop_last() =~= mesh@.primitives.take(j as int));
            assert(next.last() == p@);
        }
        let widened = sweep_attributes(o_blob, o_json, &p.attributes, current, any, lower, upper);
        current = widened.0;
        any = widened.1;
        proof {
            lemma_swept_concat(
                *lower,
                *upper,
                bounds,
                seen,
                mid,
                attribute_clouds(o_json@, o_blob@, p@.attributes),
                current,
            );
        }
        j = j + 1;
    }
    assert(mesh@.primitives.take(j as int) =~= mesh@.primitives);
    (current, any)
}

/// The bounding box of all position data that the meshes of the document reach.
///
/// Starts from the empty box and widens it by every point of every position
/// attribute whose data can be read, mesh by mesh, primitive by primitive,
/// attribute by attribute, with `lower` and `upper` as the minimum and maximum of
/// two single-precision bit patterns. Returns `None` exactly where no position
/// attribute can be read.
pub fn calculate_bounding_box<L: Fn(u32, u32) -> u32, U: Fn(u32, u32) -> u32>(
    o_blob: &[u8],
    o_json: &Document,
    lower: &L,
    upper: &U,
) -> (r: Option<Bounds>)
    requires
        comparable(*lower, *upper),
    ensures
        r is Some <==> position_clouds(o_json@, o_blob@).len() > 0,
        r matches Some(b) ==> swept(
            *lower,
            *upper,
            empty_bounds(),
            position_clouds(o_json@, o_blob@),
            b,
        ),
{
    let start = Bounds {
        min: Vec3 { x: POSITIVE_INFINITY, y: POSITIVE_INFINITY, z: POSITIVE_INFINITY },
        max: Vec3 { x: NEGATIVE_INFINITY, y: NEGATIVE_INFINITY, z: NEGATIVE_INFINITY },
    };
    let mut current = start;
    let mut found = false;
    let mut m: usize = 0;
    assert(o_json@.meshes.take(0) =~= Seq::empty());
    while m < o_json.meshes.len()
        invariant
            m <= o_json.meshes@.len(),
            o_json@.meshes.len() == o_json.meshes@.len(),
            start == empty_bounds(),
            comparable(*lower, *upper),
            swept(
                *lower,
                *upper,
                start,
                mesh_clouds(o_json@, o_blob@, o_json@.meshes.take(m as int)),
                current,
            ),
            found == (mesh_clouds(o_json@, o_blob@, o_json@.meshes.take(m as int)).len() > 0),
        decreases o_json.meshes@.len() - m,
    {
        let mesh = &o_json.meshes[m];
        let ghost seen = mesh_clouds(o_json@, o_blob@, o_json@.meshes.take(m as int));
        let ghost mid = current;
        proof {
            let next = o_json@.meshes.take(m + 1);
            assert(next.drop_last() =~= o_json@.meshes.take(m as int));
            assert(next.last() == mesh@);
        }
        let widened = sweep_primitives(o_blob, o_json, mesh, current, found, lower, upper);
        current = widened.0;
        found = widened.1;
        proof {
            lemma_swept_concat(
                *lower,
                *upper,
                start,
                seen,
                mid,
                primitive_clouds(o_json@, o_blob@, mesh@.primitives),
                current,
            );
        }
        m = m + 1;
    }
    assert(o_json@.meshes.take(m as int) =~= o_json@.meshes);
    if found {
        Some(current)
    } else {
        None
    }
}

/// `offset` moves the bottom centre of the box to the origin: its first and
/// third components are the negated halves of the sums of the corners'
/// components, as `plus` and `half` compute them, and its second component is the
/// negated second component of the lower corner.
pub open spec fn centers_bottom<A: Fn(u32, u32) -> u32, H: Fn(u32) -> u32>(
    plus: A,
    half: H,
    min: Vec3,
    max: Vec3,
    offset: Vec3,
) -> bool {
    &&& exists|sum: u32|
        #![trigger call_ensures(plus, (min.x, max.x), sum)]
        call_ensures(plus, (min.x, max.x), sum) && call_ensures(
            half,
            (sum,),
            negated(offset.x),
        )
    &&& offset.y == negated(min.y)
    &&& exists|sum: u32|
        #![trigger call_ensures(plus, (min.z, max.z), sum)]
        call_ensures(plus, (min.z, max.z), sum) && call_ensures(
            half,
            (sum,),
            negated(offset.z),
        )
}

/// The translation that moves the bottom centre of the box between `min` and
/// `max` to the origin, with `plus` as the addition and `half` as the halving of
/// single-precision bit patterns.
pub fn calculate_center_bottom_offset<A: Fn(u32, u32) -> u32, H: Fn(u32) -> u32>(
    min: Vec3,
    max: Vec3,
    plus: &A,
    half: &H,
) -> (r: Vec3)
    requires
        callable(*plus),
        forall|a: u32| call_requires(*half, (a,)),
    ensures
        centers_bottom(*plus, *half, min, max, r),
{
    let sum_x = plus(min.x, max.x);
    let center_x = half(sum_x);
    let sum_z = plus(min.z, max.z);
    let center_z = half(sum_z);
    Vec3 { x: negate(center_x), y: negate(min.y), z: negate(center_z) }
}

/// `offset` moves to the origin the bottom centre of the bounding box of the
/// points of `clouds`, as [`swept`] and [`centers_bottom`] describe them.
pub open spec fn centers<
    A: Fn(u32, u32) -> u32,
    H: Fn(u32) -> u32,
    L: Fn(u32, u32) -> u32,
    U: Fn(u32, u32) -> u32,
>(plus: A, half: H, lower: L, upper: U, clouds: Seq<Seq<Vec3>>, offset: Vec3) -> bool {
    exists|b: Bounds|
        #![trigger swept(lower, upper, empty_bounds(), clouds, b)]
        swept(lower, upper, empty_bounds(), clouds, b) && centers_bottom(
            plus,
            half,
            b.min,
            b.max,
            offset,
        )
}

/// `pivot` is the offset that a rebuild applies to positions: none where the
/// model is not recentred or no position data can be read, and otherwise the
/// offset that [`centers`] describes for all position data.
pub open spec fn pivot_chosen<
    A: Fn(u32, u32) -> u32,
    H: Fn(u32) -> u32,
    L: Fn(u32, u32) -> u32,
    U: Fn(u32, u32) -> u32,
>(
    source: DocumentView,
    blob: Seq<u8>,
    center_pivot: bool,
    plus: A,
    half: H,
    lower: L,
    upper: U,
    pivot: Option<Vec3>,
) -> bool {
    match pivot {
        Some(offset) => {
            &&& center_pivot
            &&& position_clouds(source, blob).len() > 0
            &&& centers(plus, half, lower, upper, position_clouds(source, blob), offset)
        },
        None => !center_pivot || position_clouds(source, blob).len() == 0,
    }
}

/// The offset that a rebuild applies to positions. See [`pivot_chosen`].
pub fn choose_pivot<
    A: Fn(u32, u32) -> u32,
    H: Fn(u32) -> u32,
    L: Fn(u32, u32) -> u32,
    U: Fn(u32, u32) -> u32,
>(
    o_blob: &[u8],
    o_json: &Document,
    center_pivot: bool,
    plus: &A,
    half: &H,
    lower: &L,
    upper: &U,
) -> (r: Option<Vec3>)
    requires
        callable(*plus),
        forall|a: u32| call_requires(*half, (a,)),
        comparable(*lower, *upper),
    ensures
        pivot_chosen(o_json@, o_blob@, center_pivot, *plus, *half, *lower, *upper, r),
{
    if !center_pivot {
        return None;
    }
    match calculate_bounding_box(o_blob, o_json, lower, upper) {
        Some(bounds) => {
            let offset = calculate_center_bottom_offset(bounds.min, bounds.max, plus, half);
            assert(centers(
                *plus,
                *half,
                *lower,
                *upper,
                position_clouds(o_json@, o_blob@),
                offset,
            ));
            Some(offset)
        },
        None => None,
    }
}

} // verus!
