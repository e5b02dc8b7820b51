//! The texture conversion pipeline: one texture of the source document becomes a
//! re-encoded image and a texture that shows it, both appended to the output.

use vstd::prelude::*;
use vstd::string::StringExecFns;
use crate::codec::{
    accepts_jobs, compressed, decoded_size, edge_for, encoded, format_for, refused, resize_to_jpg,
    resize_to_ktx2, resize_to_png, stage_explained, target_format, unencodable, unscalable,
    CodecFailure, CodecStage, Ktx2Job, TargetFormat, TextureType,
};
use crate::document::{
    lemma_closed_extended, lemma_map_values_push, BufferView, Document, DocumentView, Image,
    ImageView, Texture,
};
use crate::names::{
    decimal, decimal_text, default_image_name, default_ktx2_name, ktx2_name,
    update_image_name_for_ktx2,
};
use crate::output::{
    lemma_push_view_tiles, lemma_tiles_same_views, lemma_traceable_extended, ImageOrigin,
    OriginsView, Output, OutputView,
};
use crate::span::{get_image_data, image_range};

verus! {

/// Why a texture could not be converted.
#[derive(Clone, Debug, PartialEq, Eq)]
pub enum ConversionError {
    /// The bytes of the image behind the texture cannot be had: the texture or its
    /// image does not exist, the image is not embedded, or its range is not
    /// available in the source blob.
    MissingImageData { texture: usize },
    /// A codec failed on the image behind the texture.
    Codec { role: TextureType, texture: usize, stage: CodecStage, message: String },
}

/// The name of a role as it stands in messages.
pub open spec fn role_label(role: TextureType) -> Seq<char> {
    match role {
        TextureType::BaseColor => "base color"@,
        TextureType::Normal => "normal"@,
        TextureType::MetallicRoughness => "metallic/roughness"@,
    }
}

impl ConversionError {
    /// The message of the error: what failed, on which texture, and for a codec
    /// failure what the codec said.
    pub open spec fn description(self) -> Seq<char> {
        match self {
            ConversionError::MissingImageData { texture } => {
                "Failed to get texture image data (texture index: "@ + decimal(texture as nat)
                    + ")"@
            },
            ConversionError::Codec { role, texture, message, .. } => {
                "Failed to process "@ + role_label(role) + " texture: "@ + message@
                    + " (texture index: "@ + decimal(texture as nat) + ")"@
            },
        }
    }

    /// The message of the error as text.
    pub fn describe(&self) -> (r: String)
        ensures
            r@ == self.description(),
    {
        match self {
            ConversionError::MissingImageData { texture } => {
                let mut s = String::from_str("Failed to get texture image data (texture index: ");
                let index = decimal_text(*texture);
                s.append(index.as_str());
                s.append(")");
                s
            },
            ConversionError::Codec { role, texture, message, .. } => {
                let mut s = String::from_str("Failed to process ");
                let label = match role {
                    TextureType::BaseColor => "base color",
                    TextureType::Normal => "normal",
                    TextureType::MetallicRoughness => "metallic/roughness",
                };
                s.append(label);
                s.append(" texture: ");
                s.append(message.as_str());
                s.append(" (texture index: ");
                let index = decimal_text(*texture);
                s.append(index.as_str());
                s.append(")");
                s
            },
        }
    }
}

/// The name a re-encoded image gets: with KTX2 the old name with its extension
/// replaced, or a numbered name where there was none; otherwise the old name.
pub open spec fn new_image_name(name: Option<Seq<char>>, format: TargetFormat, n: nat) -> Option<
    Seq<char>,
> {
    if format is Ktx2 {
        match name {
            Some(s) => Some(ktx2_name(s)),
            None => Some(default_ktx2_name(n)),
        }
    } else {
        name
    }
}

/// The URI a re-encoded image gets: with KTX2 the old one with its extension
/// replaced; otherwise the old one.
pub open spec fn new_image_uri(uri: Option<Seq<char>>, format: TargetFormat) -> Option<Seq<char>> {
    if format is Ktx2 {
        match uri {
            Some(s) => Some(ktx2_name(s)),
            None => None,
        }
    } else {
        uri
    }
}

/// The buffer view of an image that is appended to a blob of `offset` bytes.
pub open spec fn image_view(offset: nat, length: nat) -> BufferView {
    BufferView {
        buffer: 0,
        byte_offset: if offset == 0 {
            None
        } else {
            Some(offset as usize)
        },
        byte_length: length as usize,
        byte_stride: None,
    }
}

/// `before` with `bytes` appended as the new content of source image `image`, for
/// a texture of role `role`: one buffer view that covers `bytes`, and one image
/// that points at it and carries the MIME type of `format` and the name and URI
/// that go with it.
pub open spec fn with_image(
    before: OutputView,
    source: DocumentView,
    image: int,
    bytes: Seq<u8>,
    role: TextureType,
    format: TargetFormat,
) -> OutputView {
    OutputView {
        blob: before.blob + bytes,
        document: DocumentView {
            buffer_views: before.document.buffer_views.push(
                image_view(before.blob.len(), bytes.len()),
            ),
            images: before.document.images.push(
                ImageView {
                    buffer_view: Some(before.document.buffer_views.len() as usize),
                    mime_type: Some(format.mime()),
                    name: new_image_name(
                        source.images[image].name,
                        format,
                        before.document.images.len(),
                    ),
                    uri: new_image_uri(source.images[image].uri, format),
                },
            ),
            ..before.document
        },
        origins: OriginsView {
            buffer_views: before.origins.buffer_views.push(None),
            images: before.origins.images.push(ImageOrigin { source: image as usize, role }),
            ..before.origins
        },
    }
}

/// Appends `b` to the new blob as the content of source image `image`, with a
/// buffer view for it and an image that points at that view. Returns the index of
/// the new image.
pub fn add_image(
    out: &mut Output,
    o_json: &Document,
    image: usize,
    b: Vec<u8>,
    role: TextureType,
    format: TargetFormat,
) -> (r: usize)
    requires
        old(out)@.wf(o_json@),
        image < o_json@.images.len(),
    ensures
        final(out)@.wf(o_json@),
        old(out)@.extended_by(final(out)@),
        r == old(out)@.document.images.len(),
        final(out)@ == with_image(old(out)@, o_json@, image as int, b@, role, format),
{
    let img = &o_json.images[image];
    assert(o_json@.images[image as int] == img@);
    let offset: usize = out.blob.len();
    let length: usize = b.len();
    let ghost before = out@;
    let ghost bytes = b@;
    let mut b = b;
    out.blob.append(&mut b);
    let view = BufferView {
        buffer: 0,
        byte_offset: if offset == 0 {
            None
        } else {
            Some(offset)
        },
        byte_length: length,
        byte_stride: None,
    };
    let view_idx: usize = out.document.buffer_views.len();
    out.document.buffer_views.push(view);
    out.origins.buffer_views.push(None);
    let idx_img: usize = out.document.images.len();
    let (name, uri) = if format.is_ktx2() {
        let renamed = match update_image_name_for_ktx2(&img.name) {
            Some(n) => Some(n),
            None => Some(default_image_name(idx_img)),
        };
        (renamed, update_image_name_for_ktx2(&img.uri))
    } else {
        let name = match &img.name {
            Some(s) => Some(s.clone()),
            None => None,
        };
        let uri = match &img.uri {
            Some(s) => Some(s.clone()),
            None => None,
        };
        (name, uri)
    };
    let n_img = Image {
        buffer_view: Some(view_idx),
        mime_type: Some(format.mime_type()),
        name,
        uri,
    };
    let ghost images_before = out.document.images@;
    out.document.images.push(n_img);
    out.origins.images.push(ImageOrigin { source: image, role });
    proof {
        lemma_map_values_push(images_before, n_img, |i: Image| i@);
        assert(out@ == with_image(before, o_json@, image as int, bytes, role, format));
        lemma_push_view_tiles(before.document, out@.document, before.blob.len() as int, view);
        assert(out@.document.image_resolves(idx_img as int));
        lemma_closed_extended(before.document, out@.document);
        assert(out@.view_traceable(o_json@, view_idx as int));
        assert(out@.image_traceable(o_json@, idx_img as int));
        lemma_traceable_extended(before, out@, o_json@);
    }
    idx_img
}

/// `before` with source texture `texture` converted for role `role`: its image
/// re-embedded with content `bytes` in `format`, and one texture that shows the
/// new image.
pub open spec fn with_texture(
    before: OutputView,
    source: DocumentView,
    texture: int,
    bytes: Seq<u8>,
    role: TextureType,
    format: TargetFormat,
) -> OutputView {
    let imaged = with_image(
        before,
        source,
        source.textures[texture].source as int,
        bytes,
        role,
        format,
    );
    OutputView {
        document: DocumentView {
            textures: before.document.textures.push(
                Texture { source: before.document.images.len() as usize },
            ),
            ..imaged.document
        },
        origins: OriginsView {
            textures: before.origins.textures.push(texture as usize),
            ..imaged.origins
        },
        ..imaged
    }
}

/// Appends `bytes` as the re-encoded image of source texture `texture_idx`, and a
/// texture that shows it. Returns the index of the new texture.
pub fn embed_texture(
    out: &mut Output,
    o_json: &Document,
    texture_idx: usize,
    bytes: Vec<u8>,
    role: TextureType,
    format: TargetFormat,
) -> (r: usize)
    requires
        old(out)@.wf(o_json@),
        texture_idx < o_json@.textures.len(),
        o_json@.textures[texture_idx as int].source < o_json@.images.len(),
    ensures
        final(out)@.wf(o_json@),
        old(out)@.extended_by(final(out)@),
        r == old(out)@.document.textures.len(),
        final(out)@ == with_texture(old(out)@, o_json@, texture_idx as int, bytes@, role, format),
{
    let ghost before = out@;
    let source = o_json.textures[texture_idx].source;
    let idx_img = add_image(out, o_json, source, bytes, role, format);
    let ghost mid = out@;
    let idx_tex: usize = out.document.textures.len();
    out.document.textures.push(Texture { source: idx_img });
    out.origins.textures.push(texture_idx);
    proof {
        lemma_tiles_same_views(mid.document, out@.document, mid.blob.len() as int);
        assert(out@.document.texture_resolves(idx_tex as int));
        lemma_closed_extended(mid.document, out@.document);
        assert(out@.texture_traceable(o_json@, idx_tex as int));
        lemma_traceable_extended(mid, out@, o_json@);
    }
    idx_tex
}

/// Image `k` of the output was made in `format` from its source image: it has
/// the MIME type of the format and the name and URI that go with it.
pub open spec fn image_made(
    out: OutputView,
    source: DocumentView,
    k: int,
    format: TargetFormat,
) -> bool {
    let origin = source.images[out.origins.images[k].source as int];
    &&& 0 <= k < out.document.images.len()
    &&& k < out.origins.images.len()
    &&& out.document.images[k].mime_type == Some(format.mime())
    &&& out.document.images[k].name == new_image_name(origin.name, format, k as nat)
    &&& out.document.images[k].uri == new_image_uri(origin.uri, format)
}

/// Texture `t` of the output was converted, for role `role`, from source texture
/// `texture`: it shows image `image`, whose bytes lie in buffer view `view` and
/// which was made in `format` from the image that the source texture shows.
pub open spec fn texture_made(
    out: OutputView,
    source: DocumentView,
    t: int,
    texture: int,
    image: int,
    view: int,
    role: TextureType,
    format: TargetFormat,
) -> bool {
    &&& 0 <= t < out.document.textures.len()
    &&& t < out.origins.textures.len()
    &&& out.origins.textures[t] == texture
    &&& out.document.textures[t].source == image
    &&& image_made(out, source, image, format)
    &&& out.document.images[image].buffer_view is Some
    &&& out.document.images[image].buffer_view->0 == view
    &&& 0 <= view < out.origins.buffer_views.len()
    &&& out.origins.buffer_views[view] is None
    &&& out.origins.images[image] == (ImageOrigin {
        source: source.textures[texture].source,
        role,
    })
}

/// A conversion makes the texture that it appends.
pub proof fn lemma_with_texture_makes(
    before: OutputView,
    source: DocumentView,
    texture: int,
    bytes: Seq<u8>,
    role: TextureType,
    format: TargetFormat,
)
    requires
        before.traceable(source),
        0 <= texture <= usize::MAX,
        before.document.images.len() <= usize::MAX,
        before.document.buffer_views.len() <= usize::MAX,
    ensures
        texture_made(
            with_texture(before, source, texture, bytes, role, format),
            source,
            before.document.textures.len() as int,
            texture,
            before.document.images.len() as int,
            before.document.buffer_views.len() as int,
            role,
            format,
        ),
{
}

/// The bytes of source image `image`: the range of its buffer view.
pub open spec fn source_image_bytes(source: DocumentView, blob: Seq<u8>, image: int) -> Seq<u8> {
    let view = source.buffer_views[source.images[image].buffer_view->0 as int];
    blob.subrange(view.start(), view.end())
}

/// `bytes` is a conversion of `data` to `format` for a texture of role `role` at
/// edge `edge`: for KTX2 what `compress` returned for the job that [`job_for`]
/// describes, for the other formats the file that the encoder wrote for a picture
/// of the size that the picture decoded from `data` is fitted to.
pub open spec fn conversion_of<E: Fn(Ktx2Job) -> Result<Vec<u8>, String>>(
    compress: E,
    data: Seq<u8>,
    edge: u32,
    role: TextureType,
    format: TargetFormat,
    bytes: Seq<u8>,
) -> bool {
    if format is Ktx2 {
        compressed(compress, data, edge, edge, role, bytes)
    } else {
        encoded(format, data, edge, edge, bytes)
    }
}

/// A failure at step `stage` with message `message` is one that a conversion of
/// `data` to `format` may end in: decoding fails exactly on bytes that do not
/// decode, scaling only on a picture that exceeds the edge and always where the
/// target cannot be allocated, and encoding only where the encoder, or for KTX2
/// `compress`, reported an error for what [`conversion_of`] says is handed to it.
pub open spec fn conversion_failed<E: Fn(Ktx2Job) -> Result<Vec<u8>, String>>(
    compress: E,
    data: Seq<u8>,
    edge: u32,
    role: TextureType,
    format: TargetFormat,
    stage: CodecStage,
    message: String,
) -> bool {
    &&& stage_explained(stage, data, edge, edge)
    &&& unscalable(data, edge, edge) ==> stage is Resize
    &&& stage is Encode ==> if format is Ktx2 {
        refused(compress, data, edge, edge, role, message)
    } else {
        unencodable(format, data, edge, edge)
    }
}

/// What a conversion of `data` to `format` may return. See [`written`] and
/// [`pressed`].
pub open spec fn converted_to<E: Fn(Ktx2Job) -> Result<Vec<u8>, String>>(
    compress: E,
    data: Seq<u8>,
    edge: u32,
    role: TextureType,
    format: TargetFormat,
    r: Result<Vec<u8>, CodecFailure>,
) -> bool {
    &&& decoded_size(data) is None ==> r is Err
    &&& unscalable(data, edge, edge) ==> r is Err
    &&& match r {
        Ok(bytes) => conversion_of(compress, data, edge, role, format, bytes@),
        Err(f) => conversion_failed(compress, data, edge, role, format, f.stage, f.message),
    }
}

/// The bytes of image `k` of the output are a conversion, as [`conversion_of`]
/// says, of the bytes of its source image to `format`, for its role and at edge
/// `edge`.
pub open spec fn image_encoded<E: Fn(Ktx2Job) -> Result<Vec<u8>, String>>(
    out: OutputView,
    source: DocumentView,
    blob: Seq<u8>,
    compress: E,
    edge: u32,
    format: TargetFormat,
    k: int,
) -> bool {
    let v = out.document.images[k].buffer_view->0;
    let view = out.document.buffer_views[v as int];
    &&& out.document.images[k].buffer_view is Some
    &&& v < out.document.buffer_views.len()
    &&& 0 <= view.start() <= view.end() <= out.blob.len()
    &&& conversion_of(
        compress,
        source_image_bytes(source, blob, out.origins.images[k].source as int),
        edge,
        out.origins.images[k].role,
        format,
        out.blob.subrange(view.start(), view.end()),
    )
}

/// Every image of the output is a conversion of its source image, in the format
/// that [`format_for`] gives for its role and at the edge that [`edge_for`] gives
/// for its role when the edge asked for is `n_tex_size`.
pub open spec fn transcoded<E: Fn(Ktx2Job) -> Result<Vec<u8>, String>>(
    out: OutputView,
    source: DocumentView,
    blob: Seq<u8>,
    compress: E,
    n_tex_size: u32,
    convert_to_ktx2: bool,
) -> bool {
    forall|k: int|
        0 <= k < out.document.images.len() ==> #[trigger] image_encoded(
            out,
            source,
            blob,
            compress,
            edge_for(out.origins.images[k].role, n_tex_size),
            format_for(out.origins.images[k].role, convert_to_ktx2),
            k,
        )
}

/// That every image is a conversion of its source stays true when the output is
/// appended to, provided the images that come new are conversions.
pub proof fn lemma_transcoded_extended<E: Fn(Ktx2Job) -> Result<Vec<u8>, String>>(
    before: OutputView,
    after: OutputView,
    source: DocumentView,
    blob: Seq<u8>,
    compress: E,
    n_tex_size: u32,
    convert_to_ktx2: bool,
)
    requires
        before.origins.images.len() == before.document.images.len(),
        before.extended_by(after),
        transcoded(before, source, blob, compress, n_tex_size, convert_to_ktx2),
        forall|k: int|
            before.document.images.len() <= k < after.document.images.len()
                ==> #[trigger] image_encoded(
                after,
                source,
                blob,
                compress,
                edge_for(after.origins.images[k].role, n_tex_size),
                format_for(after.origins.images[k].role, convert_to_ktx2),
                k,
            ),
    ensures
        transcoded(after, source, blob, compress, n_tex_size, convert_to_ktx2),
{
    assert forall|k: int| 0 <= k < after.document.images.len() implies #[trigger] image_encoded(
        after,
        source,
        blob,
        compress,
        edge_for(after.origins.images[k].role, n_tex_size),
        format_for(after.origins.images[k].role, convert_to_ktx2),
        k,
    ) by {
        if k < before.document.images.len() {
            assert(image_encoded(
                before,
                source,
                blob,
                compress,
                edge_for(before.origins.images[k].role, n_tex_size),
                format_for(before.origins.images[k].role, convert_to_ktx2),
                k,
            ));
            let v = before.document.images[k].buffer_view->0;
            let view = before.document.buffer_views[v as int];
            assert(after.blob.subrange(view.start(), view.end()) =~= before.blob.subrange(
                view.start(),
                view.end(),
            ));
        }
    }
}

/// What a texture conversion may do to the output and return.
///
/// Where the bytes of the image cannot be had it reports so, with the index of the
/// texture, and leaves the output alone. Otherwise the codec decides: on its
/// failure the output is left alone and the error names the role and the texture;
/// on its success the output is `before` with the texture converted as
/// [`with_texture`] says, the bytes being what was appended to the blob.
pub open spec fn conversion_outcome(
    before: OutputView,
    after: OutputView,
    source: DocumentView,
    blob_len: int,
    texture: usize,
    role: TextureType,
    convert_to_ktx2: bool,
    r: Result<usize, ConversionError>,
) -> bool {
    match r {
        Ok(t) => {
            &&& image_range(source, blob_len, texture as int) is Some
            &&& t == before.document.textures.len()
            &&& after == with_texture(
                before,
                source,
                texture as int,
                after.blob.subrange(before.blob.len() as int, after.blob.len() as int),
                role,
                format_for(role, convert_to_ktx2),
            )
        },
        Err(ConversionError::MissingImageData { texture: missing }) => {
            &&& image_range(source, blob_len, texture as int) is None
            &&& missing == texture
            &&& after == before
        },
        Err(ConversionError::Codec { role: failed, texture: on, .. }) => {
            &&& image_range(source, blob_len, texture as int) is Some
            &&& failed == role
            &&& on == texture
            &&& after == before
        },
    }
}

/// What the outcome of a conversion of texture `texture` says of the bytes of its
/// image. Success means that they decode and that the target can be allocated
/// where the picture has to be scaled; a codec failure is one that
/// [`conversion_failed`] allows.
pub open spec fn failure_explained<E: Fn(Ktx2Job) -> Result<Vec<u8>, String>>(
    source: DocumentView,
    blob: Seq<u8>,
    compress: E,
    texture: usize,
    n_tex_size: u32,
    role: TextureType,
    convert_to_ktx2: bool,
    r: Result<usize, ConversionError>,
) -> bool {
    let data = source_image_bytes(source, blob, source.textures[texture as int].source as int);
    match r {
        Ok(_) => decoded_size(data) is Some && !unscalable(data, n_tex_size, n_tex_size),
        Err(ConversionError::Codec { stage, message, .. }) => conversion_failed(
            compress,
            data,
            n_tex_size,
            role,
            format_for(role, convert_to_ktx2),
            stage,
            message,
        ),
        Err(ConversionError::MissingImageData { .. }) => true,
    }
}

/// What a failure of a rebuild says of the bytes it failed on: `e` is a codec
/// failure that [`conversion_failed`] allows for the image behind the texture it
/// names, in the format and at the edge that go with the role it names when the
/// edge asked for is `n_tex_size`.
pub open spec fn failure_caused<E: Fn(Ktx2Job) -> Result<Vec<u8>, String>>(
    source: DocumentView,
    blob: Seq<u8>,
    compress: E,
    n_tex_size: u32,
    convert_to_ktx2: bool,
    e: ConversionError,
) -> bool {
    match e {
        ConversionError::Codec { role, texture, stage, message } => conversion_failed(
            compress,
            source_image_bytes(source, blob, source.textures[texture as int].source as int),
            edge_for(role, n_tex_size),
            role,
            format_for(role, convert_to_ktx2),
            stage,
            message,
        ),
        ConversionError::MissingImageData { .. } => false,
    }
}

/// Runs the codec that `format` names on `data`.
fn encode_as<E: Fn(Ktx2Job) -> Result<Vec<u8>, String>>(
    data: &[u8],
    n_tex_size: u32,
    role: TextureType,
    format: TargetFormat,
    compress: &E,
) -> (r: Result<Vec<u8>, CodecFailure>)
    requires
        accepts_jobs(*compress),
    ensures
        converted_to(*compress, data@, n_tex_size, role, format, r),
{
    match format {
        TargetFormat::Ktx2 => resize_to_ktx2(data, n_tex_size, n_tex_size, role, compress),
        TargetFormat::Png => resize_to_png(data, n_tex_size, n_tex_size),
        TargetFormat::Jpeg => resize_to_jpg(data, n_tex_size, n_tex_size),
    }
}

/// Converts source texture `texture_idx` for a material slot of role `role`.
///
/// The image behind the texture is decoded, scaled down to `n_tex_size` on both
/// sides where it is larger, and re-encoded in the format of the role. On success
/// the new image and a new texture are appended to the output and the index of
/// the new texture is returned. On failure the output is left as it was.
///
/// The bytes of the new image are a conversion of those of the source image, as
/// [`conversion_of`] says; a failure is one that [`conversion_failed`] allows.
pub fn convert_texture<E: Fn(Ktx2Job) -> Result<Vec<u8>, String>>(
    out: &mut Output,
    o_blob: &[u8],
    o_json: &Document,
    texture_idx: usize,
    n_tex_size: u32,
    convert_to_ktx2: bool,
    role: TextureType,
    compress: &E,
) -> (r: Result<usize, ConversionError>)
    requires
        old(out)@.wf(o_json@),
        accepts_jobs(*compress),
    ensures
        final(out)@.wf(o_json@),
        old(out)@.extended_by(final(out)@),
        conversion_outcome(
            old(out)@,
            final(out)@,
            o_json@,
            o_blob@.len() as int,
            texture_idx,
            role,
            convert_to_ktx2,
            r,
        ),
        r is Ok ==> image_encoded(
            final(out)@,
            o_json@,
            o_blob@,
            *compress,
            n_tex_size,
            format_for(role, convert_to_ktx2),
            old(out)@.document.images.len() as int,
        ),
        failure_explained(
            o_json@,
            o_blob@,
            *compress,
            texture_idx,
            n_tex_size,
            role,
            convert_to_ktx2,
            r,
        ),
{
    let data = match get_image_data(o_blob, o_json, texture_idx) {
        Some(d) => d,
        None => {
            return Err(ConversionError::MissingImageData { texture: texture_idx });
        },
    };
    let format = target_format(role, convert_to_ktx2);
    let bytes = match encode_as(data, n_tex_size, role, format, compress) {
        Ok(b) => b,
        Err(f) => {
            return Err(
                ConversionError::Codec {
                    role,
                    texture: texture_idx,
                    stage: f.stage,
                    message: f.message,
                },
            );
        },
    };
    let ghost before = out@;
    let ghost appended = bytes@;
    let blob_size: usize = out.blob.len();
    let view_count: usize = out.document.buffer_views.len();
    let idx_tex = embed_texture(out, o_json, texture_idx, bytes, role, format);
    let new_size: usize = out.blob.len();
    proof {
        assert(out@.blob.subrange(before.blob.len() as int, out@.blob.len() as int) =~= appended);
        let k = before.document.images.len() as int;
        let view = out@.document.buffer_views[view_count as int];
        assert(view == image_view(before.blob.len(), appended.len()));
        assert(out@.blob.subrange(view.start(), view.end()) =~= appended);
    }
    Ok(idx_tex)
}

/// Converts the base-colour texture `texture_idx`: JPEG, or KTX2 where asked for.
/// See [`convert_texture`].
pub fn add_texture<E: Fn(Ktx2Job) -> Result<Vec<u8>, String>>(
    out: &mut Output,
    o_blob: &[u8],
    o_json: &Document,
    texture_idx: usize,
    n_tex_size: u32,
    convert_to_ktx2: bool,
    compress: &E,
) -> (r: Result<usize, ConversionError>)
    requires
        old(out)@.wf(o_json@),
        accepts_jobs(*compress),
    ensures
        final(out)@.wf(o_json@),
        old(out)@.extended_by(final(out)@),
        conversion_outcome(
            old(out)@,
            final(out)@,
            o_json@,
            o_blob@.len() as int,
            texture_idx,
            TextureType::BaseColor,
            convert_to_ktx2,
            r,
        ),
        r is Ok ==> image_encoded(
            final(out)@,
            o_json@,
            o_blob@,
            *compress,
            n_tex_size,
            format_for(TextureType::BaseColor, convert_to_ktx2),
            old(out)@.document.images.len() as int,
        ),
        failure_explained(
            o_json@,
            o_blob@,
            *compress,
            texture_idx,
            n_tex_size,
            TextureType::BaseColor,
            convert_to_ktx2,
            r,
        ),
{
    convert_texture(
        out,
        o_blob,
        o_json,
        texture_idx,
        n_tex_size,
        convert_to_ktx2,
        TextureType::BaseColor,
        compress,
    )
}

/// Converts the normal map `texture_idx`: PNG, or KTX2 where asked for.
/// See [`convert_texture`].
pub fn add_normal_texture<E: Fn(Ktx2Job) -> Result<Vec<u8>, String>>(
    out: &mut Output,
    o_blob: &[u8],
    o_json: &Document,
    texture_idx: usize,
    n_tex_size: u32,
    convert_to_ktx2: bool,
    compress: &E,
) -> (r: Result<usize, ConversionError>)
    requires
        old(out)@.wf(o_json@),
        accepts_jobs(*compress),
    ensures
        final(out)@.wf(o_json@),
        old(out)@.extended_by(final(out)@),
        conversion_outcome(
            old(out)@,
            final(out)@,
            o_json@,
            o_blob@.len() as int,
            texture_idx,
            TextureType::Normal,
            convert_to_ktx2,
            r,
        ),
        r is Ok ==> image_encoded(
            final(out)@,
            o_json@,
            o_blob@,
            *compress,
            n_tex_size,
            format_for(TextureType::Normal, convert_to_ktx2),
            old(out)@.document.images.len() as int,
        ),
        failure_explained(
            o_json@,
            o_blob@,
            *compress,
            texture_idx,
            n_tex_size,
            TextureType::Normal,
            convert_to_ktx2,
            r,
        ),
{
    convert_texture(
        out,
        o_blob,
        o_json,
        texture_idx,
        n_tex_size,
        convert_to_ktx2,
        TextureType::Normal,
        compress,
    )
}

/// Converts the metallic-roughness texture `texture_idx`: JPEG, or KTX2 where
/// asked for. See [`convert_texture`].
pub fn add_metallic_roughness_texture<E: Fn(Ktx2Job) -> Result<Vec<u8>, String>>(
    out: &mut Output,
    o_blob: &[u8],
    o_json: &Document,
    texture_idx: usize,
    n_tex_size: u32,
    convert_to_ktx2: bool,
    compress: &E,
) -> (r: Result<usize, ConversionError>)
    requires
        old(out)@.wf(o_json@),
        accepts_jobs(*compress),
    ensures
        final(out)@.wf(o_json@),
        old(out)@.extended_by(final(out)@),
        conversion_outcome(
            old(out)@,
            final(out)@,
            o_json@,
            o_blob@.len() as int,
            texture_idx,
            TextureType::MetallicRoughness,
            convert_to_ktx2,
            r,
        ),
        r is Ok ==> image_encoded(
            final(out)@,
            o_json@,
            o_blob@,
            *compress,
            n_tex_size,
            format_for(TextureType::MetallicRoughness, convert_to_ktx2),
            old(out)@.document.images.len() as int,
        ),
        failure_explained(
            o_json@,
            o_blob@,
            *compress,
            texture_idx,
            n_tex_size,
            TextureType::MetallicRoughness,
            convert_to_ktx2,
            r,
        ),
{
    convert_texture(
        out,
        o_blob,
        o_json,
        texture_idx,
        n_tex_size,
        convert_to_ktx2,
        TextureType::MetallicRoughness,
        compress,
    )
}

} // verus!
