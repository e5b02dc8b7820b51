//! The span extractor: from a reference into the source document to the byte range
//! of the source blob that it denotes.

use vstd::prelude::*;
use vstd::slice::slice_subrange;
use crate::document::{Document, DocumentView};

verus! {

/// The range `[start, end)` of buffer view `view`, provided the view exists and the
/// range lies inside a blob of `blob_len` bytes.
pub open spec fn view_range(doc: DocumentView, blob_len: int, view: int) -> Option<(int, int)> {
    if 0 <= view < doc.buffer_views.len() && doc.buffer_views[view].end() <= blob_len {
        Some((doc.buffer_views[view].start(), doc.buffer_views[view].end()))
    } else {
        None
    }
}

/// The range of the buffer view behind accessor `accessor`, provided the accessor
/// exists, has a buffer view, and that view's range is available.
pub open spec fn accessor_range(doc: DocumentView, blob_len: int, accessor: int) -> Option<
    (int, int),
> {
    if 0 <= accessor < doc.accessors.len() {
        match doc.accessors[accessor].buffer_view {
            Some(v) => view_range(doc, blob_len, v as int),
            None => None,
        }
    } else {
        None
    }
}

/// The range of the embedded image behind texture `texture`, provided the texture
/// and its image exist, the image is embedded, and its range is available.
pub open spec fn image_range(doc: DocumentView, blob_len: int, texture: int) -> Option<(int, int)> {
    if 0 <= texture < doc.textures.len() && doc.textures[texture].source < doc.images.len() {
        match doc.images[doc.textures[texture].source as int].buffer_view {
            Some(v) => view_range(doc, blob_len, v as int),
            None => None,
        }
    } else {
        None
    }
}

/// The bytes of buffer view `view`, or `None` where the view is missing or reaches
/// beyond the blob.
pub fn extract_span<'a>(blob: &'a [u8], doc: &Document, view: usize) -> (r: Option<&'a [u8]>)
    ensures
        match view_range(doc@, blob@.len() as int, view as int) {
            Some((s, e)) => r matches Some(d) && d@ == blob@.subrange(s, e),
            None => r is None,
        },
{
    let n: usize = blob.len();
    if view >= doc.buffer_views.len() {
        return None;
    }
    let v = &doc.buffer_views[view];
    let offset: usize = match v.byte_offset {
        Some(o) => o,
        None => 0,
    };
    match offset.checked_add(v.byte_length) {
        None => None,
        Some(end) => {
            if end > n {
                None
            } else {
                Some(slice_subrange(blob, offset, end))
            }
        },
    }
}

/// The bytes behind accessor `accessor`: the whole range of its buffer view.
pub fn accessor_span<'a>(blob: &'a [u8], doc: &Document, accessor: usize) -> (r: Option<&'a [u8]>)
    ensures
        match accessor_range(doc@, blob@.len() as int, accessor as int) {
            Some((s, e)) => r matches Some(d) && d@ == blob@.subrange(s, e),
            None => r is None,
        },
{
    if accessor >= doc.accessors.len() {
        return None;
    }
    match doc.accessors[accessor].buffer_view {
        Some(v) => extract_span(blob, doc, v),
        None => None,
    }
}

/// The bytes of the embedded image that texture `texture_idx` shows, or `None`
/// where any link of the chain texture, image, buffer view, range is missing.
pub fn get_image_data<'a>(o_blob: &'a [u8], o_json: &Document, texture_idx: usize) -> (r: Option<
    &'a [u8],
>)
    ensures
        match image_range(o_json@, o_blob@.len() as int, texture_idx as int) {
            Some((s, e)) => r matches Some(d) && d@ == o_blob@.subrange(s, e),
            None => r is None,
        },
{
    if texture_idx >= o_json.textures.len() {
        return None;
    }
    let source = o_json.textures[texture_idx].source;
    if source >= o_json.images.len() {
        return None;
    }
    let img = &o_json.images[source];
    assert(o_json@.images[source as int] == img@);
    match img.buffer_view {
        Some(v) => extract_span(o_blob, o_json, v),
        None => None,
    }
}

} // verus!
