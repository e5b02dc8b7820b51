//! The accessor relocation engine: copies the span behind one source accessor into
//! the new blob, translating position records on the way where asked to, and
//! appends the buffer view and accessor that describe the copy.

use vstd::prelude::*;
use vstd::slice::slice_to_vec;
use crate::document::{lemma_closed_extended, Accessor, BufferView, Document, DocumentView};
use crate::output::{
    lemma_push_view_tiles, lemma_traceable_extended, AccessorOrigin, OriginsView, Output, OutputView,
};
use crate::span::{accessor_range, accessor_span};
use crate::words::{
    lemma_with_record, lemma_word_at_same, read_record, record_at, with_record, write_record, Vec3,
};

verus! {

/// `plus` may be called on every pair of bit patterns.
pub open spec fn callable<A: Fn(u32, u32) -> u32>(plus: A) -> bool {
    forall|a: u32, b: u32| call_requires(plus, (a, b))
}

/// `after` is `before` with the record at `start` replaced by a component-wise sum,
/// as `plus` computes it, of that record and `by`.
pub open spec fn shifted<A: Fn(u32, u32) -> u32>(
    plus: A,
    before: Seq<u8>,
    start: int,
    by: Vec3,
    after: Seq<u8>,
) -> bool {
    let was = record_at(before, start);
    let now = record_at(after, start);
    &&& after == with_record(before, start, now)
    &&& call_ensures(plus, (was.x, by.x), now.x)
    &&& call_ensures(plus, (was.y, by.y), now.y)
    &&& call_ensures(plus, (was.z, by.z), now.z)
}

/// Offset of record `i` in a span whose first record is at `first`.
pub open spec fn record_start(first: int, stride: int, i: int) -> int {
    first + i * stride
}

/// `out` is what `span` becomes when its first `n` records are translated by `by`
/// in order, each in place: record `i` lies at `first + i * stride`, and a record
/// that does not fit into the span is left alone.
pub open spec fn translated<A: Fn(u32, u32) -> u32>(
    plus: A,
    span: Seq<u8>,
    first: int,
    stride: int,
    by: Vec3,
    n: nat,
    out: Seq<u8>,
) -> bool
    decreases n,
{
    if n == 0 {
        out == span
    } else {
        let start = record_start(first, stride, n - 1);
        if start + 12 <= span.len() {
            exists|prev: Seq<u8>|
                #![trigger shifted(plus, prev, start, by, out)]
                translated(plus, span, first, stride, by, (n - 1) as nat, prev) && shifted(
                    plus,
                    prev,
                    start,
                    by,
                    out,
                )
        } else {
            translated(plus, span, first, stride, by, (n - 1) as nat, out)
        }
    }
}

/// A translation never changes the length of the span.
pub proof fn lemma_translated_len<A: Fn(u32, u32) -> u32>(
    plus: A,
    span: Seq<u8>,
    first: int,
    stride: int,
    by: Vec3,
    n: nat,
    out: Seq<u8>,
)
    requires
        0 <= first,
        0 <= stride,
        translated(plus, span, first, stride, by, n, out),
    ensures
        out.len() == span.len(),
    decreases n,
{
    if n > 0 {
        let start = record_start(first, stride, n - 1);
        assert(0 <= (n - 1) * stride) by (nonlinear_arith)
            requires
                0 <= n - 1,
                0 <= stride,
        ;
        if start + 12 <= span.len() {
            let prev = choose|prev: Seq<u8>|
                #![trigger shifted(plus, prev, start, by, out)]
                translated(plus, span, first, stride, by, (n - 1) as nat, prev) && shifted(
                    plus,
                    prev,
                    start,
                    by,
                    out,
                );
            lemma_translated_len(plus, span, first, stride, by, (n - 1) as nat, prev);
            lemma_with_record(prev, start, record_at(out, start));
        } else {
            lemma_translated_len(plus, span, first, stride, by, (n - 1) as nat, out);
        }
    }
}

/// Once a record does not fit into the span, no later record does, so translating
/// more records changes nothing.
pub proof fn lemma_translated_beyond<A: Fn(u32, u32) -> u32>(
    plus: A,
    span: Seq<u8>,
    first: int,
    stride: int,
    by: Vec3,
    i: nat,
    n: nat,
    out: Seq<u8>,
)
    requires
        0 <= stride,
        i <= n,
        record_start(first, stride, i as int) + 12 > span.len(),
        translated(plus, span, first, stride, by, i, out),
    ensures
        translated(plus, span, first, stride, by, n, out),
    decreases n,
{
    if n > i {
        lemma_translated_beyond(plus, span, first, stride, by, i, (n - 1) as nat, out);
        assert(i * stride <= (n - 1) * stride) by (nonlinear_arith)
            requires
                i <= n - 1,
                0 <= stride,
        ;
    }
}

/// With a stride of at least twelve bytes, an earlier record ends before a later
/// one starts.
pub proof fn lemma_records_ordered(first: int, stride: int, k: int, m: int)
    requires
        12 <= stride,
        0 <= k < m,
    ensures
        record_start(first, stride, k) + 12 <= record_start(first, stride, m),
{
    assert(k * stride + stride <= m * stride) by (nonlinear_arith)
        requires
            0 <= k < m,
            12 <= stride,
    ;
}

/// A translation leaves every byte alone that lies in none of the records.
pub proof fn lemma_translated_elsewhere<A: Fn(u32, u32) -> u32>(
    plus: A,
    span: Seq<u8>,
    first: int,
    stride: int,
    by: Vec3,
    n: nat,
    out: Seq<u8>,
    j: int,
)
    requires
        0 <= first,
        0 <= stride,
        translated(plus, span, first, stride, by, n, out),
        0 <= j < span.len(),
        forall|i: int|
            0 <= i < n ==> !(#[trigger] record_start(first, stride, i) <= j < record_start(
                first,
                stride,
                i,
            ) + 12),
    ensures
        out.len() == span.len(),
        out[j] == span[j],
    decreases n,
{
    lemma_translated_len(plus, span, first, stride, by, n, out);
    if n > 0 {
        let start = record_start(first, stride, n - 1);
        assert(0 <= (n - 1) * stride) by (nonlinear_arith)
            requires
                0 <= n - 1,
                0 <= stride,
        ;
        if start + 12 <= span.len() {
            let prev = choose|prev: Seq<u8>|
                #![trigger shifted(plus, prev, start, by, out)]
                translated(plus, span, first, stride, by, (n - 1) as nat, prev) && shifted(
                    plus,
                    prev,
                    start,
                    by,
                    out,
                );
            lemma_translated_elsewhere(plus, span, first, stride, by, (n - 1) as nat, prev, j);
            lemma_with_record(prev, start, record_at(out, start));
        } else {
            lemma_translated_elsewhere(plus, span, first, stride, by, (n - 1) as nat, out, j);
        }
    }
}

/// Pivot correctness, record by record: where the records do not overlap, every
/// record that fits into the span is, after the translation, the component-wise
/// sum, as `plus` computes it, of the record before and `by`.
pub proof fn lemma_translated_record<A: Fn(u32, u32) -> u32>(
    plus: A,
    span: Seq<u8>,
    first: int,
    stride: int,
    by: Vec3,
    n: nat,
    out: Seq<u8>,
    i: int,
)
    requires
        0 <= first,
        12 <= stride,
        translated(plus, span, first, stride, by, n, out),
        0 <= i < n,
        record_start(first, stride, i) + 12 <= span.len(),
    ensures
        call_ensures(
            plus,
            (record_at(span, record_start(first, stride, i)).x, by.x),
            record_at(out, record_start(first, stride, i)).x,
        ),
        call_ensures(
            plus,
            (record_at(span, record_start(first, stride, i)).y, by.y),
            record_at(out, record_start(first, stride, i)).y,
        ),
        call_ensures(
            plus,
            (record_at(span, record_start(first, stride, i)).z, by.z),
            record_at(out, record_start(first, stride, i)).z,
        ),
    decreases n,
{
    let here = record_start(first, stride, i);
    let last = record_start(first, stride, n - 1);
    assert(0 <= i * stride) by (nonlinear_arith)
        requires
            0 <= i,
            0 <= stride,
    ;
    if i < n - 1 {
        lemma_records_ordered(first, stride, i, n - 1);
    }
    if last + 12 <= span.len() {
        let prev = choose|prev: Seq<u8>|
            #![trigger shifted(plus, prev, last, by, out)]
            translated(plus, span, first, stride, by, (n - 1) as nat, prev) && shifted(
                plus,
                prev,
                last,
                by,
                out,
            );
        lemma_translated_len(plus, span, first, stride, by, (n - 1) as nat, prev);
        lemma_with_record(prev, last, record_at(out, last));
        if i == n - 1 {
            assert forall|j: int| here <= j < here + 12 implies prev[j] == span[j] by {
                assert forall|k: int| 0 <= k < n - 1 implies !(#[trigger] record_start(
                    first,
                    stride,
                    k,
                ) <= j < record_start(first, stride, k) + 12) by {
                    lemma_records_ordered(first, stride, k, i);
                }
                lemma_translated_elsewhere(plus, span, first, stride, by, (n - 1) as nat, prev, j);
            }
            lemma_word_at_same(prev, span, here);
            lemma_word_at_same(prev, span, here + 4);
            lemma_word_at_same(prev, span, here + 8);
        } else {
            lemma_translated_record(plus, span, first, stride, by, (n - 1) as nat, prev, i);
            lemma_word_at_same(out, prev, here);
            lemma_word_at_same(out, prev, here + 4);
            lemma_word_at_same(out, prev, here + 8);
        }
    } else {
        lemma_translated_record(plus, span, first, stride, by, (n - 1) as nat, out, i);
    }
}

/// Translates the first `count` records of `data` by `by`, in place.
///
/// Record `i` is the three little-endian words at `first + i * stride`. Each of its
/// components is replaced by what `plus` returns for it and the matching component
/// of `by`. Records that reach beyond the end of `data` are skipped.
pub fn translate_records<A: Fn(u32, u32) -> u32>(
    data: &mut Vec<u8>,
    first: usize,
    stride: usize,
    count: usize,
    by: Vec3,
    plus: &A,
)
    requires
        callable(*plus),
    ensures
        translated(
            *plus,
            old(data)@,
            first as int,
            stride as int,
            by,
            count as nat,
            final(data)@,
        ),
        final(data)@.len() == old(data)@.len(),
{
    let len: usize = data.len();
    let mut i: usize = 0;
    let mut start: usize = first;
    while i < count
        invariant_except_break
            i <= count,
            start as int == record_start(first as int, stride as int, i as int),
        invariant
            callable(*plus),
            data@.len() == len,
            len == old(data)@.len(),
            translated(*plus, old(data)@, first as int, stride as int, by, i as nat, data@),
        ensures
            translated(*plus, old(data)@, first as int, stride as int, by, count as nat, data@),
        decreases count - i,
    {
        if start > len || len - start < 12 {
            proof {
                lemma_translated_beyond(
                    *plus,
                    old(data)@,
                    first as int,
                    stride as int,
                    by,
                    i as nat,
                    count as nat,
                    data@,
                );
            }
            break;
        }
        let ghost prev = data@;
        let was = read_record(data.as_slice(), start);
        let now = Vec3 { x: plus(was.x, by.x), y: plus(was.y, by.y), z: plus(was.z, by.z) };
        write_record(data, start, now);
        proof {
            lemma_with_record(prev, start as int, now);
            assert(shifted(*plus, prev, start as int, by, data@));
            assert((i + 1) * stride == i * stride + stride) by (nonlinear_arith);
        }
        i = i + 1;
        match start.checked_add(stride) {
            Some(next) => {
                start = next;
            },
            None => {
                proof {
                    lemma_translated_beyond(
                        *plus,
                        old(data)@,
                        first as int,
                        stride as int,
                        by,
                        i as nat,
                        count as nat,
                        data@,
                    );
                }
                break;
            },
        }
    }
}

/// The offset that is actually applied to an accessor: the requested one, and only
/// where the accessor's records are three packed floating-point components.
pub open spec fn effective_translation(acc: Accessor, requested: Option<Vec3>) -> Option<Vec3> {
    if acc.is_float_vec3() {
        requested
    } else {
        None
    }
}

/// `after` is `before` with the span of source accessor `idx` appended as `bytes`:
/// one buffer view that starts at the old end of the blob and covers `bytes`, and
/// one accessor that equals the source accessor but for its buffer view and for
/// the sparse storage, which it has not.
pub open spec fn relocated(
    before: OutputView,
    after: OutputView,
    source: DocumentView,
    idx: int,
    bytes: Seq<u8>,
    translation: Option<Vec3>,
) -> bool {
    let acc = source.accessors[idx];
    let v = acc.buffer_view->0;
    after == (OutputView {
        blob: before.blob + bytes,
        document: DocumentView {
            buffer_views: before.document.buffer_views.push(
                BufferView {
                    buffer: 0,
                    byte_offset: Some(before.blob.len() as usize),
                    byte_length: bytes.len() as usize,
                    byte_stride: source.buffer_views[v as int].byte_stride,
                },
            ),
            accessors: before.document.accessors.push(
                Accessor {
                    buffer_view: Some(before.document.buffer_views.len() as usize),
                    sparse: None,
                    ..acc
                },
            ),
            ..before.document
        },
        origins: OriginsView {
            buffer_views: before.origins.buffer_views.push(Some(v)),
            accessors: before.origins.accessors.push(
                AccessorOrigin { source: idx as usize, translation },
            ),
            ..before.origins
        },
    })
}

/// The bytes behind rebuilt accessor `k` are the bytes behind its source accessor:
/// unchanged, or translated as [`translated`] says where its origin records a
/// translation. Its buffer view is a copy of the view of the source accessor.
pub open spec fn accessor_faithful<A: Fn(u32, u32) -> u32>(
    out: OutputView,
    source: DocumentView,
    blob: Seq<u8>,
    plus: A,
    k: int,
) -> bool {
    let o = out.origins.accessors[k];
    let acc = source.accessors[o.source as int];
    let v = out.document.accessors[k].buffer_view->0;
    let view = out.document.buffer_views[v as int];
    let bytes = out.blob.subrange(view.start(), view.end());
    match accessor_range(source, blob.len() as int, o.source as int) {
        Some((s, e)) => {
            &&& v < out.document.buffer_views.len()
            &&& 0 <= view.start() <= view.end() <= out.blob.len()
            &&& out.origins.buffer_views[v as int] == acc.buffer_view
            &&& match o.translation {
                Some(by) => acc.is_float_vec3() && translated(
                    plus,
                    blob.subrange(s, e),
                    acc.first_record(),
                    source.buffer_views[acc.buffer_view->0 as int].record_stride(),
                    by,
                    acc.count as nat,
                    bytes,
                ),
                None => bytes == blob.subrange(s, e),
            }
        },
        None => false,
    }
}

/// Every rebuilt accessor is faithful to its source.
pub open spec fn faithful<A: Fn(u32, u32) -> u32>(
    out: OutputView,
    source: DocumentView,
    blob: Seq<u8>,
    plus: A,
) -> bool {
    forall|k: int|
        0 <= k < out.document.accessors.len() ==> #[trigger] accessor_faithful(
            out,
            source,
            blob,
            plus,
            k,
        )
}

/// A faithful accessor stays faithful when the output is appended to.
pub proof fn lemma_accessor_faithful_stable<A: Fn(u32, u32) -> u32>(
    before: OutputView,
    after: OutputView,
    source: DocumentView,
    blob: Seq<u8>,
    plus: A,
    k: int,
)
    requires
        before.traceable(source),
        before.extended_by(after),
        0 <= k < before.document.accessors.len(),
        accessor_faithful(before, source, blob, plus, k),
    ensures
        accessor_faithful(after, source, blob, plus, k),
{
    let v = before.document.accessors[k].buffer_view->0;
    let view = before.document.buffer_views[v as int];
    assert(after.blob.subrange(view.start(), view.end()) =~= before.blob.subrange(
        view.start(),
        view.end(),
    ));
}

/// Faithfulness survives appending that adds no accessor.
pub proof fn lemma_faithful_extended<A: Fn(u32, u32) -> u32>(
    before: OutputView,
    after: OutputView,
    source: DocumentView,
    blob: Seq<u8>,
    plus: A,
)
    requires
        before.traceable(source),
        before.extended_by(after),
        faithful(before, source, blob, plus),
        forall|k: int|
            before.document.accessors.len() <= k < after.document.accessors.len()
                ==> #[trigger] accessor_faithful(after, source, blob, plus, k),
    ensures
        faithful(after, source, blob, plus),
{
    assert forall|k: int| 0 <= k < after.document.accessors.len() implies #[trigger] accessor_faithful(
        after,
        source,
        blob,
        plus,
        k,
    ) by {
        if k < before.document.accessors.len() {
            lemma_accessor_faithful_stable(before, after, source, blob, plus, k);
        }
    }
}

/// Faithfulness survives a relocation whose bytes are the source span, unchanged
/// or translated.
pub proof fn lemma_faithful_relocated<A: Fn(u32, u32) -> u32>(
    before: OutputView,
    after: OutputView,
    source: DocumentView,
    blob: Seq<u8>,
    plus: A,
    idx: int,
    bytes: Seq<u8>,
    translation: Option<Vec3>,
)
    requires
        before.wf(source),
        faithful(before, source, blob, plus),
        accessor_range(source, blob.len() as int, idx) is Some,
        relocated(before, after, source, idx, bytes, translation),
        before.blob.len() + bytes.len() <= usize::MAX,
        before.document.buffer_views.len() <= usize::MAX,
        idx <= usize::MAX,
        ({
            let acc = source.accessors[idx];
            let r = accessor_range(source, blob.len() as int, idx)->0;
            match translation {
                Some(by) => acc.is_float_vec3() && translated(
                    plus,
                    blob.subrange(r.0, r.1),
                    acc.first_record(),
                    source.buffer_views[acc.buffer_view->0 as int].record_stride(),
                    by,
                    acc.count as nat,
                    bytes,
                ),
                None => bytes == blob.subrange(r.0, r.1),
            }
        }),
    ensures
        faithful(after, source, blob, plus),
{
    let k = before.document.accessors.len() as int;
    let v = before.document.buffer_views.len() as int;
    let view = after.document.buffer_views[v];
    assert(after.blob.subrange(view.start(), view.end()) =~= bytes);
    assert(accessor_faithful(after, source, blob, plus, k));
    lemma_faithful_extended(before, after, source, blob, plus);
}

/// The translation of an accessor, where it has one, is `pivot`.
pub open spec fn translation_is(origin: AccessorOrigin, pivot: Option<Vec3>) -> bool {
    origin.translation is None || origin.translation == pivot
}

/// Every translation that the output records for an accessor is `pivot`.
pub open spec fn translations_are(out: OutputView, pivot: Option<Vec3>) -> bool {
    forall|k: int|
        0 <= k < out.origins.accessors.len() ==> translation_is(
            #[trigger] out.origins.accessors[k],
            pivot,
        )
}

/// Whatever the translations of `before` are, those of `after` are too.
pub open spec fn keeps_translations(before: OutputView, after: OutputView) -> bool {
    forall|pivot: Option<Vec3>| #[trigger]
        translations_are(before, pivot) ==> translations_are(after, pivot)
}

/// Appending accessors that are not translated keeps the translations.
pub proof fn lemma_keeps_translations(before: OutputView, after: OutputView)
    requires
        before.extended_by(after),
        forall|k: int|
            before.origins.accessors.len() <= k < after.origins.accessors.len() ==> (
            #[trigger] after.origins.accessors[k]).translation is None,
    ensures
        keeps_translations(before, after),
{
    assert forall|pivot: Option<Vec3>| #[trigger]
        translations_are(before, pivot) implies translations_are(after, pivot) by {
        lemma_translations_extended(before, after, pivot);
    }
}

/// Appending accessors that are translated by `pivot`, if at all, keeps the
/// translations at `pivot`.
pub proof fn lemma_translations_extended(before: OutputView, after: OutputView, pivot: Option<Vec3>)
    requires
        before.extended_by(after),
        translations_are(before, pivot),
        forall|k: int|
            before.origins.accessors.len() <= k < after.origins.accessors.len() ==> translation_is(
                #[trigger] after.origins.accessors[k],
                pivot,
            ),
    ensures
        translations_are(after, pivot),
{
    assert forall|k: int| 0 <= k < after.origins.accessors.len() implies translation_is(
        #[trigger] after.origins.accessors[k],
        pivot,
    ) by {
        if k < before.origins.accessors.len() {
            assert(before.origins.accessors[k] == after.origins.accessors[k]);
        }
    }
}

/// Idempotence of pass-through, for geometry: where no accessor was translated,
/// the bytes behind every rebuilt accessor are the bytes behind its source
/// accessor, and the accessor itself differs from its source in its buffer view
/// and in having no sparse storage.
pub proof fn lemma_pass_through_geometry<A: Fn(u32, u32) -> u32>(
    out: OutputView,
    source: DocumentView,
    blob: Seq<u8>,
    plus: A,
    k: int,
)
    requires
        out.traceable(source),
        faithful(out, source, blob, plus),
        translations_are(out, None),
        0 <= k < out.document.accessors.len(),
    ensures
        ({
            let origin = out.origins.accessors[k].source as int;
            let view = out.document.buffer_views[out.document.accessors[k].buffer_view->0 as int];
            let range = accessor_range(source, blob.len() as int, origin);
            let span = range->0;
            &&& range is Some
            &&& out.blob.subrange(view.start(), view.end()) == blob.subrange(span.0, span.1)
            &&& out.document.accessors[k] == (Accessor {
                buffer_view: out.document.accessors[k].buffer_view,
                sparse: None,
                ..source.accessors[origin]
            })
        }),
{
    assert(accessor_faithful(out, source, blob, plus, k));
    assert(out.accessor_traceable(source, k));
    assert(out.origins.accessors[k].translation is None);
}

/// Pivot correctness, for a rebuilt accessor: where accessor `k` was translated by
/// `by` and its records do not overlap, every record of it that fits into its
/// span is, in the new blob, the component-wise sum, as `plus` computes it, of the
/// same record in the source blob and `by`.
pub proof fn lemma_pivot_applied<A: Fn(u32, u32) -> u32>(
    out: OutputView,
    source: DocumentView,
    blob: Seq<u8>,
    plus: A,
    k: int,
    by: Vec3,
    i: int,
)
    requires
        faithful(out, source, blob, plus),
        0 <= k < out.document.accessors.len(),
        out.origins.accessors[k].translation == Some(by),
        ({
            let acc = source.accessors[out.origins.accessors[k].source as int];
            let view = source.buffer_views[acc.buffer_view->0 as int];
            &&& 12 <= view.record_stride()
            &&& 0 <= i < acc.count
            &&& record_start(acc.first_record(), view.record_stride(), i) + 12 <= view.byte_length
        }),
    ensures
        ({
            let acc = source.accessors[out.origins.accessors[k].source as int];
            let view = source.buffer_views[acc.buffer_view->0 as int];
            let here = record_start(acc.first_record(), view.record_stride(), i);
            let new_view = out.document.buffer_views[out.document.accessors[k].buffer_view->0 as int];
            let was = record_at(blob.subrange(view.start(), view.end()), here);
            let now = record_at(out.blob.subrange(new_view.start(), new_view.end()), here);
            &&& call_ensures(plus, (was.x, by.x), now.x)
            &&& call_ensures(plus, (was.y, by.y), now.y)
            &&& call_ensures(plus, (was.z, by.z), now.z)
        }),
{
    assert(accessor_faithful(out, source, blob, plus, k));
    let acc = source.accessors[out.origins.accessors[k].source as int];
    let view = source.buffer_views[acc.buffer_view->0 as int];
    let new_view = out.document.buffer_views[out.document.accessors[k].buffer_view->0 as int];
    lemma_translated_record(
        plus,
        blob.subrange(view.start(), view.end()),
        acc.first_record(),
        view.record_stride(),
        by,
        acc.count as nat,
        out.blob.subrange(new_view.start(), new_view.end()),
        i,
    );
}

/// Appends `bytes` as the relocated span of source accessor `idx`, whose buffer
/// view is `idx_view`, with the buffer view and accessor that describe it.
fn push_relocated(
    out: &mut Output,
    o_json: &Document,
    idx: usize,
    idx_view: usize,
    bytes: Vec<u8>,
    translation: Option<Vec3>,
) -> (r: usize)
    requires
        old(out)@.wf(o_json@),
        idx < o_json@.accessors.len(),
        o_json@.accessors[idx as int].buffer_view == Some(idx_view),
        idx_view < o_json@.buffer_views.len(),
    ensures
        final(out)@.wf(o_json@),
        old(out)@.extended_by(final(out)@),
        r == old(out)@.document.accessors.len(),
        relocated(old(out)@, final(out)@, o_json@, idx as int, bytes@, translation),
{
    let acc = o_json.accessors[idx];
    let view = o_json.buffer_views[idx_view];
    let n_offset: usize = out.blob.len();
    let length: usize = bytes.len();
    let ghost before = out@;
    let mut bytes = bytes;
    out.blob.append(&mut bytes);
    let n_view = BufferView {
        buffer: 0,
        byte_offset: Some(n_offset),
        byte_length: length,
        byte_stride: view.byte_stride,
    };
    let n_view_idx: usize = out.document.buffer_views.len();
    out.document.buffer_views.push(n_view);
    out.origins.buffer_views.push(Some(idx_view));
    let n_acc = Accessor {
        buffer_view: Some(n_view_idx),
        byte_offset: acc.byte_offset,
        count: acc.count,
        component_type: acc.component_type,
        element_type: acc.element_type,
        sparse: None,
    };
    let idx_acc: usize = out.document.accessors.len();
    out.document.accessors.push(n_acc);
    out.origins.accessors.push(AccessorOrigin { source: idx, translation });
    proof {
        lemma_push_view_tiles(before.document, out@.document, before.blob.len() as int, n_view);
        assert(out@.document.accessor_resolves(idx_acc as int));
        lemma_closed_extended(before.document, out@.document);
        assert(out@.view_traceable(o_json@, n_view_idx as int));
        assert(out@.accessor_traceable(o_json@, idx_acc as int));
        lemma_traceable_extended(before, out@, o_json@);
    }
    idx_acc
}

/// Relocates source accessor `idx` into the output.
///
/// Fails, and leaves the output as it was, where the accessor does not exist, has
/// no buffer view, or its view's range is not available in the source blob.
/// Otherwise the whole range of the view is appended to the new blob, followed in
/// the document by a buffer view for it and an accessor that points at that view;
/// the index of the new accessor is returned. With an offset given and a layout of
/// three packed floating-point components, the copy has its records translated
/// in place before it is appended.
pub fn add_accessor_with_offset<A: Fn(u32, u32) -> u32>(
    out: &mut Output,
    o_blob: &[u8],
    o_json: &Document,
    idx: usize,
    position_offset: Option<Vec3>,
    plus: &A,
) -> (r: Option<usize>)
    requires
        old(out)@.wf(o_json@),
        callable(*plus),
    ensures
        final(out)@.wf(o_json@),
        old(out)@.extended_by(final(out)@),
        match accessor_range(o_json@, o_blob@.len() as int, idx as int) {
            None => r is None && final(out)@ == old(out)@,
            Some((s, e)) => {
                let acc = o_json@.accessors[idx as int];
                let view = o_json@.buffer_views[acc.buffer_view->0 as int];
                let bytes = final(out)@.blob.subrange(
                    old(out)@.blob.len() as int,
                    final(out)@.blob.len() as int,
                );
                let translation = effective_translation(acc, position_offset);
                &&& r is Some
                &&& r->0 == old(out)@.document.accessors.len()
                &&& relocated(old(out)@, final(out)@, o_json@, idx as int, bytes, translation)
                &&& match translation {
                    Some(by) => translated(
                        *plus,
                        o_blob@.subrange(s, e),
                        acc.first_record(),
                        view.record_stride(),
                        by,
                        acc.count as nat,
                        bytes,
                    ),
                    None => bytes == o_blob@.subrange(s, e),
                }
            },
        },
{
    let data = match accessor_span(o_blob, o_json, idx) {
        Some(d) => d,
        None => {
            return None;
        },
    };
    let acc = o_json.accessors[idx];
    let idx_view = match acc.buffer_view {
        Some(v) => v,
        None => {
            return None;
        },
    };
    let view = o_json.buffer_views[idx_view];
    let mut bytes = slice_to_vec(data);
    let translation = if acc.has_float_vec3_layout() {
        position_offset
    } else {
        None
    };
    if let Some(by) = translation {
        let acc_offset: usize = match acc.byte_offset {
            Some(o) => o,
            None => 0,
        };
        let stride: usize = match view.byte_stride {
            Some(s) => s,
            None => 12,
        };
        translate_records(&mut bytes, acc_offset, stride, acc.count, by, plus);
    }
    let ghost appended = bytes@;
    let ghost before = out@;
    let idx_acc = push_relocated(out, o_json, idx, idx_view, bytes, translation);
    proof {
        assert(out@.blob.subrange(before.blob.len() as int, out@.blob.len() as int) =~= appended);
    }
    Some(idx_acc)
}

/// Relocates source accessor `idx` into the output without changing a byte.
///
/// Fails, and leaves the output as it was, on the inputs on which
/// [`add_accessor_with_offset`] fails.
pub fn add_accessor(out: &mut Output, o_blob: &[u8], o_json: &Document, idx: usize) -> (r: Option<
    usize,
>)
    requires
        old(out)@.wf(o_json@),
    ensures
        final(out)@.wf(o_json@),
        old(out)@.extended_by(final(out)@),
        match accessor_range(o_json@, o_blob@.len() as int, idx as int) {
            None => r is None && final(out)@ == old(out)@,
            Some((s, e)) => {
                &&& r is Some
                &&& r->0 == old(out)@.document.accessors.len()
                &&& relocated(
                    old(out)@,
                    final(out)@,
                    o_json@,
                    idx as int,
                    o_blob@.subrange(s, e),
                    None,
                )
            },
        },
{
    let data = match accessor_span(o_blob, o_json, idx) {
        Some(d) => d,
        None => {
            return None;
        },
    };
    let idx_view = match o_json.accessors[idx].buffer_view {
        Some(v) => v,
        None => {
            return None;
        },
    };
    let bytes = slice_to_vec(data);
    Some(push_relocated(out, o_json, idx, idx_view, bytes, None))
}

} // verus!
