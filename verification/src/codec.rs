//! The picture codecs: decoding, downscaling and re-encoding of one embedded image.
//!
//! Pixels are decoded and encoded by the `image` crate and resampled by
//! `fast_image_resize`. Compression to KTX2 is left to a function that the caller
//! supplies; this module prepares everything that function needs.

use vstd::prelude::*;
use vstd::string::StringExecFns;
use fast_image_resize::ResizeError;
use fast_image_resize::Resizer;
use image::codecs::jpeg::JpegEncoder;
use image::codecs::png::PngEncoder;
use image::DynamicImage;
use image::ImageEncoder;
use image::ImageError;
use crate::names::decimal;
use crate::names::decimal_text;

verus! {

/// Declares `image::DynamicImage`, a decoded picture, as a type whose inside is
/// not looked into.
#[verifier::external_type_specification]
#[verifier::external_body]
pub struct ExDynamicImage(DynamicImage);

/// Declares `image::ImageError`, the error of the decoders and encoders, as a
/// type whose inside is not looked into.
#[verifier::external_type_specification]
#[verifier::external_body]
pub struct ExImageError(ImageError);

/// Declares `fast_image_resize::ResizeError`, the error of the resampler, as a
/// type whose inside is not looked into.
#[verifier::external_type_specification]
#[verifier::external_body]
pub struct ExResizeError(ResizeError);

/// The role a texture plays in a material.
#[derive(Clone, Copy, Debug, PartialEq, Eq)]
pub enum TextureType {
    /// Colour data.
    BaseColor,
    /// A normal map, which needs more fidelity than the others.
    Normal,
    /// Material properties.
    MetallicRoughness,
}

/// The format a texture is re-encoded to.
#[derive(Clone, Copy, Debug, PartialEq, Eq)]
pub enum TargetFormat {
    Jpeg,
    Png,
    Ktx2,
}

/// The format that textures of role `role` are written in.
pub open spec fn format_for(role: TextureType, convert_to_ktx2: bool) -> TargetFormat {
    if convert_to_ktx2 {
        TargetFormat::Ktx2
    } else if role is Normal {
        TargetFormat::Png
    } else {
        TargetFormat::Jpeg
    }
}

/// Executable form of [`format_for`].
pub fn target_format(role: TextureType, convert_to_ktx2: bool) -> (r: TargetFormat)
    ensures
        r == format_for(role, convert_to_ktx2),
{
    if convert_to_ktx2 {
        TargetFormat::Ktx2
    } else {
        match role {
            TextureType::Normal => TargetFormat::Png,
            _ => TargetFormat::Jpeg,
        }
    }
}

impl TargetFormat {
    /// The characters of the MIME type of the format.
    pub open spec fn mime(self) -> Seq<char> {
        match self {
            TargetFormat::Jpeg => seq!['i', 'm', 'a', 'g', 'e', '/', 'j', 'p', 'e', 'g'],
            TargetFormat::Png => seq!['i', 'm', 'a', 'g', 'e', '/', 'p', 'n', 'g'],
            TargetFormat::Ktx2 => seq!['i', 'm', 'a', 'g', 'e', '/', 'k', 't', 'x', '2'],
        }
    }

    /// The MIME type of the format.
    pub fn mime_type(&self) -> (r: String)
        ensures
            r@ == self.mime(),
    {
        proof {
            reveal_strlit("image/jpeg");
            reveal_strlit("image/png");
            reveal_strlit("image/ktx2");
        }
        let r = match self {
            TargetFormat::Jpeg => String::from_str("image/jpeg"),
            TargetFormat::Png => String::from_str("image/png"),
            TargetFormat::Ktx2 => String::from_str("image/ktx2"),
        };
        assert(r@ =~= self.mime());
        r
    }

    /// Whether the format is KTX2.
    pub fn is_ktx2(&self) -> (r: bool)
        ensures
            r == (*self is Ktx2),
    {
        match self {
            TargetFormat::Ktx2 => true,
            _ => false,
        }
    }
}

/// The step of a conversion that failed.
#[derive(Clone, Copy, Debug, PartialEq, Eq)]
pub enum CodecStage {
    Decode,
    Resize,
    Encode,
}

/// Why one picture could not be converted.
#[derive(Clone, Debug, PartialEq, Eq)]
pub struct CodecFailure {
    pub stage: CodecStage,
    pub message: String,
}

/// Quality settings of the KTX2 compressor. The two thresholds are in hundredths.
#[derive(Clone, Copy, Debug, PartialEq, Eq)]
pub struct CompressionProfile {
    pub quality_level: u32,
    pub endpoint_rdo_hundredths: u32,
    pub selector_rdo_hundredths: u32,
}

/// The settings for textures of role `role`: normal maps get the higher quality
/// and the tighter thresholds.
pub open spec fn profile_for(role: TextureType) -> CompressionProfile {
    if role is Normal {
        CompressionProfile {
            quality_level: 180,
            endpoint_rdo_hundredths: 100,
            selector_rdo_hundredths: 100,
        }
    } else {
        CompressionProfile {
            quality_level: 150,
            endpoint_rdo_hundredths: 125,
            selector_rdo_hundredths: 125,
        }
    }
}

/// Executable form of [`profile_for`].
pub fn compression_profile(role: TextureType) -> (r: CompressionProfile)
    ensures
        r == profile_for(role),
{
    match role {
        TextureType::Normal => CompressionProfile {
            quality_level: 180,
            endpoint_rdo_hundredths: 100,
            selector_rdo_hundredths: 100,
        },
        _ => CompressionProfile {
            quality_level: 150,
            endpoint_rdo_hundredths: 125,
            selector_rdo_hundredths: 125,
        },
    }
}

/// Everything the KTX2 compressor needs for one texture.
#[derive(Clone, Debug, PartialEq, Eq)]
pub struct Ktx2Job {
    pub width: u32,
    pub height: u32,
    /// The pixels, four bytes each: red, green, blue, alpha.
    pub rgba: Vec<u8>,
    pub profile: CompressionProfile,
    /// Whether to compress with UASTC rather than ETC1S.
    pub uastc: bool,
    /// Number of worker threads the compressor may use.
    pub thread_count: u32,
    /// Value of the `Tool` metadata entry.
    pub tool: String,
    /// Value of the `Dimensions` metadata entry.
    pub dimensions: String,
    /// Value of the `CompressionMode` metadata entry, to be set after compression.
    pub compression_mode: String,
}

/// A picture of size `source` has to be scaled down to fit into `width` by
/// `height`.
pub open spec fn exceeds(source: (u32, u32), width: u32, height: u32) -> bool {
    source.0 > width || source.1 > height
}

/// Decides between scaling and passing the pixels through: a picture is scaled
/// only where one of its sides is longer than the target allows, never up.
pub fn needs_resize(source_width: u32, source_height: u32, width: u32, height: u32) -> (r: bool)
    ensures
        r == exceeds((source_width, source_height), width, height),
{
    source_width > width || source_height > height
}

/// The size a picture of size `source` is encoded at when the target is `width`
/// by `height`.
pub open spec fn fitted_size(source: (u32, u32), width: u32, height: u32) -> (u32, u32) {
    if exceeds(source, width, height) {
        (width, height)
    } else {
        source
    }
}

/// A picture of this size can be allocated whatever its pixel layout: the widest
/// layout takes sixteen bytes per pixel.
pub open spec fn allocatable(width: u32, height: u32) -> bool {
    (width as int) * (height as int) * 16 <= usize::MAX / 2
}

/// Executable form of [`allocatable`].
pub fn can_allocate(width: u32, height: u32) -> (r: bool)
    ensures
        r == allocatable(width, height),
{
    let limit: u64 = (usize::MAX / 32) as u64;
    assert((width as int) * (height as int) <= 0xFFFF_FFFF * 0xFFFF_FFFF) by (nonlinear_arith)
        requires
            width <= 0xFFFF_FFFF,
            height <= 0xFFFF_FFFF,
    ;
    let pixels: u64 = (width as u64) * (height as u64);
    assert(usize::MAX == 0xFFFF_FFFF || usize::MAX == 0xFFFF_FFFF_FFFF_FFFF) by {
        assert(usize::BITS == 32 || usize::BITS == 64);
    }
    pixels <= limit
}

/// The text `WxH` for a picture of `width` by `height`.
pub open spec fn dimensions_label(width: u32, height: u32) -> Seq<char> {
    decimal(width as nat).push('x') + decimal(height as nat)
}

/// Executable form of [`dimensions_label`].
pub fn dimensions_text(width: u32, height: u32) -> (r: String)
    ensures
        r@ == dimensions_label(width, height),
{
    let mut s = decimal_text(width as usize);
    s.append("x");
    let h = decimal_text(height as usize);
    s.append(h.as_str());
    proof {
        reveal_strlit("x");
        assert("x"@ =~= seq!['x']);
        assert(s@ =~= dimensions_label(width, height));
    }
    s
}

/// Width and height of a picture, as `DynamicImage::width` and
/// `DynamicImage::height` give them.
pub uninterp spec fn picture_size(img: DynamicImage) -> (u32, u32);

/// The pixels of a picture, as `DynamicImage::as_bytes` gives them.
pub uninterp spec fn picture_pixels(img: DynamicImage) -> Seq<u8>;

/// Width and height of the picture that `image::load_from_memory_with_format`
/// decodes `data` to, in the format that `image::guess_format` finds in it; `None`
/// where either of them reports an error.
pub uninterp spec fn decoded_size(data: Seq<u8>) -> Option<(u32, u32)>;

/// The file that `JpegEncoder::write_image` writes for a picture, or `None` where
/// it reports an error.
pub uninterp spec fn jpeg_of(img: DynamicImage) -> Option<Seq<u8>>;

/// The file that `PngEncoder::write_image` writes for a picture, or `None` where
/// it reports an error.
pub uninterp spec fn png_of(img: DynamicImage) -> Option<Seq<u8>>;

/// Calls `image::guess_format` and, with the format it finds,
/// `image::load_from_memory_with_format`. Neither looks at anything but the bytes
/// and the built-in decoders: no hook that the process may have registered is
/// consulted. Of the picture only its size is claimed, and that decoding the same
/// bytes succeeds or fails every time alike.
#[verifier::external_body]
fn decode_image(data: &[u8]) -> (r: Result<DynamicImage, ImageError>)
    ensures
        match r {
            Ok(img) => decoded_size(data@) == Some(picture_size(img)),
            Err(_) => decoded_size(data@) is None,
        },
{
    image::load_from_memory_with_format(data, image::guess_format(data)?)
}

/// Calls `DynamicImage::width`.
#[verifier::external_body]
fn image_width(img: &DynamicImage) -> (r: u32)
    ensures
        r == picture_size(*img).0,
{
    img.width()
}

/// Calls `DynamicImage::height`.
#[verifier::external_body]
fn image_height(img: &DynamicImage) -> (r: u32)
    ensures
        r == picture_size(*img).1,
{
    img.height()
}

/// Calls `DynamicImage::new` with the colour type of `img`: a zeroed picture of
/// the given size. That call panics where the pixel buffer cannot be allocated
/// as a vector, which the precondition rules out.
#[verifier::external_body]
fn blank_like(img: &DynamicImage, width: u32, height: u32) -> (r: DynamicImage)
    requires
        allocatable(width, height),
    ensures
        picture_size(r) == (width, height),
{
    DynamicImage::new(width, height, img.color())
}

/// Calls `Resizer::resize` of a fresh `Resizer` with its default options:
/// resamples `src` to the size of `dst` and stores the pixels in `dst`, whose
/// size stays what it was. Nothing is claimed of the pixels: the resampler picks
/// its arithmetic by the processor it runs on.
#[verifier::external_body]
fn resize_into(src: &DynamicImage, dst: &mut DynamicImage) -> (r: Result<(), ResizeError>)
    ensures
        picture_size(*final(dst)) == picture_size(*old(dst)),
{
    Resizer::new().resize(src, dst, None)
}

/// Calls `JpegEncoder::write_image` on the pixels, size and colour type of `img`,
/// with an encoder that writes into a vector. The buffer has the length the
/// encoder insists on because all four values come from one picture. What is
/// written depends on the picture alone.
#[verifier::external_body]
fn encode_jpeg(img: &DynamicImage) -> (r: Result<Vec<u8>, ImageError>)
    ensures
        match r {
            Ok(bytes) => jpeg_of(*img) == Some(bytes@),
            Err(_) => jpeg_of(*img) is None,
        },
{
    let mut buf: Vec<u8> = Vec::new();
    JpegEncoder::new(&mut buf).write_image(
        img.as_bytes(),
        img.width(),
        img.height(),
        img.color().into(),
    )?;
    Ok(buf)
}

/// Calls `PngEncoder::write_image` on the pixels, size and colour type of `img`,
/// with an encoder that writes into a vector. The buffer has the length the
/// encoder insists on because all four values come from one picture. What is
/// written depends on the picture alone.
#[verifier::external_body]
fn encode_png(img: &DynamicImage) -> (r: Result<Vec<u8>, ImageError>)
    ensures
        match r {
            Ok(bytes) => png_of(*img) == Some(bytes@),
            Err(_) => png_of(*img) is None,
        },
{
    let mut buf: Vec<u8> = Vec::new();
    PngEncoder::new(&mut buf).write_image(
        img.as_bytes(),
        img.width(),
        img.height(),
        img.color().into(),
    )?;
    Ok(buf)
}

/// Calls `DynamicImage::to_rgba8`: a copy of `img`, of the same size, with four
/// 8-bit channels.
#[verifier::external_body]
fn to_rgba(img: &DynamicImage) -> (r: DynamicImage)
    ensures
        picture_size(r) == picture_size(*img),
{
    DynamicImage::ImageRgba8(img.to_rgba8())
}

/// Calls `DynamicImage::as_bytes` and copies the pixels it returns.
#[verifier::external_body]
fn image_bytes(img: &DynamicImage) -> (r: Vec<u8>)
    ensures
        r@ == picture_pixels(*img),
{
    img.as_bytes().to_vec()
}

/// Calls `num_cpus::get`: the number of logical processors of this machine.
/// Nothing is claimed of the outcome.
#[verifier::external_body]
fn cpu_count() -> (r: usize) {
    num_cpus::get()
}

/// Decodes `img_data`.
fn decode(img_data: &[u8]) -> (r: Result<DynamicImage, CodecFailure>)
    ensures
        match r {
            Ok(img) => decoded_size(img_data@) == Some(picture_size(img)),
            Err(f) => f.stage == CodecStage::Decode && decoded_size(img_data@) is None,
        },
{
    match decode_image(img_data) {
        Ok(img) => Ok(img),
        Err(e) => Err(CodecFailure { stage: CodecStage::Decode, message: e.to_string() }),
    }
}

/// Scales `img` down to `width` by `height` where it exceeds them, and hands it
/// back untouched where it does not. A target that cannot be allocated is an
/// error of its own, reported before the resampler is called.
fn fit(img: DynamicImage, width: u32, height: u32) -> (r: Result<DynamicImage, CodecFailure>)
    ensures
        match r {
            Ok(fitted) => {
                &&& picture_size(fitted) == fitted_size(picture_size(img), width, height)
                &&& !exceeds(picture_size(img), width, height) ==> fitted == img
            },
            Err(f) => f.stage == CodecStage::Resize && exceeds(picture_size(img), width, height),
        },
        !exceeds(picture_size(img), width, height) ==> r is Ok,
        exceeds(picture_size(img), width, height) && !allocatable(width, height) ==> r is Err,
{
    let source_width = image_width(&img);
    let source_height = image_height(&img);
    if needs_resize(source_width, source_height, width, height) {
        if !can_allocate(width, height) {
            return Err(
                CodecFailure {
                    stage: CodecStage::Resize,
                    message: String::from_str("target size is beyond what can be allocated"),
                },
            );
        }
        let mut dst = blank_like(&img, width, height);
        match resize_into(&img, &mut dst) {
            Ok(()) => Ok(dst),
            Err(e) => Err(CodecFailure { stage: CodecStage::Resize, message: e.to_string() }),
        }
    } else {
        Ok(img)
    }
}

/// The file that the encoder of `format` writes for a picture; KTX2 files are
/// not written by an encoder of this module.
pub open spec fn file_of(format: TargetFormat, picture: DynamicImage) -> Option<Seq<u8>> {
    match format {
        TargetFormat::Jpeg => jpeg_of(picture),
        TargetFormat::Png => png_of(picture),
        TargetFormat::Ktx2 => None,
    }
}

/// `picture` has the size that the picture decoded from `data` is fitted to for a
/// target of `width` by `height`.
pub open spec fn fitted_from(picture: DynamicImage, data: Seq<u8>, width: u32, height: u32) -> bool {
    decoded_size(data) is Some && picture_size(picture) == fitted_size(
        decoded_size(data)->0,
        width,
        height,
    )
}

/// `bytes` is the file that the encoder of `format` wrote for a picture of the
/// size that the picture decoded from `data` is fitted to for a target of `width`
/// by `height`.
pub open spec fn encoded(
    format: TargetFormat,
    data: Seq<u8>,
    width: u32,
    height: u32,
    bytes: Seq<u8>,
) -> bool {
    exists|picture: DynamicImage|
        #![trigger file_of(format, picture)]
        fitted_from(picture, data, width, height) && file_of(format, picture) == Some(bytes)
}

/// The encoder of `format` reported an error for a picture of the size that the
/// picture decoded from `data` is fitted to for a target of `width` by `height`.
pub open spec fn unencodable(format: TargetFormat, data: Seq<u8>, width: u32, height: u32) -> bool {
    exists|picture: DynamicImage|
        #![trigger file_of(format, picture)]
        fitted_from(picture, data, width, height) && file_of(format, picture) is None
}

/// What the step at which a conversion of `data` to a target of `width` by
/// `height` failed says of `data`: decoding fails exactly on bytes that do not
/// decode, and scaling can only fail on a picture that exceeds the target.
pub open spec fn stage_explained(stage: CodecStage, data: Seq<u8>, width: u32, height: u32) -> bool {
    match stage {
        CodecStage::Decode => decoded_size(data) is None,
        CodecStage::Resize => decoded_size(data) is Some && exceeds(
            decoded_size(data)->0,
            width,
            height,
        ),
        CodecStage::Encode => decoded_size(data) is Some,
    }
}

/// The picture decoded from `data` has to be scaled to a target that cannot be
/// allocated: the conversion fails at scaling before the resampler is called.
pub open spec fn unscalable(data: Seq<u8>, width: u32, height: u32) -> bool {
    &&& decoded_size(data) is Some
    &&& exceeds(decoded_size(data)->0, width, height)
    &&& !allocatable(width, height)
}

/// What a conversion of `data` to `format` with an encoder of this module may
/// return.
///
/// Bytes that do not decode give a failure at decoding, and nothing else does. A
/// target that cannot be allocated gives a failure at scaling. A failure at
/// encoding is an error of the encoder for a picture of the fitted size. On
/// success the bytes are the file that the encoder wrote for a picture of the
/// fitted size.
pub open spec fn written(
    format: TargetFormat,
    data: Seq<u8>,
    width: u32,
    height: u32,
    r: Result<Vec<u8>, CodecFailure>,
) -> bool {
    &&& decoded_size(data) is None ==> r is Err
    &&& unscalable(data, width, height) ==> (r matches Err(f) && f.stage is Resize)
    &&& match r {
        Ok(bytes) => encoded(format, data, width, height, bytes@),
        Err(f) => {
            &&& stage_explained(f.stage, data, width, height)
            &&& f.stage is Encode ==> unencodable(format, data, width, height)
        },
    }
}

/// Decodes `img_data`, scales the picture down to `width` by `height` where it
/// is larger, and encodes it as JPEG. See [`written`].
pub fn resize_to_jpg(img_data: &[u8], width: u32, height: u32) -> (r: Result<
    Vec<u8>,
    CodecFailure,
>)
    ensures
        written(TargetFormat::Jpeg, img_data@, width, height, r),
{
    let img = decode(img_data)?;
    let fitted = fit(img, width, height)?;
    match encode_jpeg(&fitted) {
        Ok(bytes) => {
            assert(file_of(TargetFormat::Jpeg, fitted) == Some(bytes@));
            Ok(bytes)
        },
        Err(e) => {
            assert(file_of(TargetFormat::Jpeg, fitted) is None);
            Err(CodecFailure { stage: CodecStage::Encode, message: e.to_string() })
        },
    }
}

/// Decodes `img_data`, scales the picture down to `width` by `height` where it
/// is larger, and encodes it as PNG. See [`written`].
pub fn resize_to_png(img_data: &[u8], width: u32, height: u32) -> (r: Result<
    Vec<u8>,
    CodecFailure,
>)
    ensures
        written(TargetFormat::Png, img_data@, width, height, r),
{
    let img = decode(img_data)?;
    let fitted = fit(img, width, height)?;
    match encode_png(&fitted) {
        Ok(bytes) => {
            assert(file_of(TargetFormat::Png, fitted) == Some(bytes@));
            Ok(bytes)
        },
        Err(e) => {
            assert(file_of(TargetFormat::Png, fitted) is None);
            Err(CodecFailure { stage: CodecStage::Encode, message: e.to_string() })
        },
    }
}

/// `job` is the request that [`resize_to_ktx2`] hands to the compressor for a
/// texture of role `role`, a picture of size `source` and a target of `width` by
/// `height`: it has the size that the picture is fitted to and the pixels of a
/// picture of that size, carries the settings of the role, asks for ETC1S, and is
/// labelled with its own size.
pub open spec fn job_for(
    job: Ktx2Job,
    source: (u32, u32),
    width: u32,
    height: u32,
    role: TextureType,
) -> bool {
    &&& (job.width, job.height) == fitted_size(source, width, height)
    &&& exists|picture: DynamicImage|
        #![trigger picture_pixels(picture)]
        picture_pixels(picture) == job.rgba@ && picture_size(picture) == (job.width, job.height)
    &&& job.profile == profile_for(role)
    &&& !job.uastc
    &&& job.tool@ == seq!['g', 'l', 'b', '_', 'o', 'p', 't']
    &&& job.dimensions@ == dimensions_label(job.width, job.height)
    &&& job.compression_mode@ == seq!['E', 'T', 'C', '1', 'S']
}

/// The edge that textures of role `role` are converted at when the edge asked for
/// is `n_tex_size`: half of it for metallic-roughness textures, all of it for the
/// others.
pub open spec fn edge_for(role: TextureType, n_tex_size: u32) -> u32 {
    if role is MetallicRoughness {
        (n_tex_size / 2) as u32
    } else {
        n_tex_size
    }
}

/// Role-based sizing: metallic-roughness textures are converted at half the edge
/// of base-colour textures and normal maps, which are converted at the edge asked
/// for.
pub proof fn lemma_edge_for_roles(n_tex_size: u32)
    ensures
        edge_for(TextureType::BaseColor, n_tex_size) == n_tex_size,
        edge_for(TextureType::Normal, n_tex_size) == n_tex_size,
        edge_for(TextureType::MetallicRoughness, n_tex_size) == n_tex_size / 2,
{
}

/// The edge that textures of role `role` are converted at.
pub fn texture_edge(role: TextureType, n_tex_size: u32) -> (r: u32)
    ensures
        r == edge_for(role, n_tex_size),
{
    match role {
        TextureType::MetallicRoughness => n_tex_size / 2,
        _ => n_tex_size,
    }
}

/// `bytes` is what `compress` returned for the job that [`job_for`] describes for
/// the picture that `data` decodes to, a texture of role `role`, and a target of
/// `width` by `height`.
pub open spec fn compressed<E: Fn(Ktx2Job) -> Result<Vec<u8>, String>>(
    compress: E,
    data: Seq<u8>,
    width: u32,
    height: u32,
    role: TextureType,
    bytes: Seq<u8>,
) -> bool {
    &&& decoded_size(data) is Some
    &&& exists|job: Ktx2Job, file: Vec<u8>|
        #![trigger call_ensures(compress, (job,), Ok::<Vec<u8>, String>(file))]
        job_for(job, decoded_size(data)->0, width, height, role) && file@ == bytes
            && call_ensures(compress, (job,), Ok::<Vec<u8>, String>(file))
}

/// `compress` returned the error `message` for the job that [`job_for`]
/// describes for the picture that `data` decodes to, a texture of role `role`,
/// and a target of `width` by `height`.
pub open spec fn refused<E: Fn(Ktx2Job) -> Result<Vec<u8>, String>>(
    compress: E,
    data: Seq<u8>,
    width: u32,
    height: u32,
    role: TextureType,
    message: String,
) -> bool {
    &&& decoded_size(data) is Some
    &&& exists|job: Ktx2Job|
        #![trigger call_ensures(compress, (job,), Err::<Vec<u8>, String>(message))]
        job_for(job, decoded_size(data)->0, width, height, role) && call_ensures(
            compress,
            (job,),
            Err::<Vec<u8>, String>(message),
        )
}

/// A job that is compressed to a target of `width` by `height` is no larger than
/// the target on either side.
pub proof fn lemma_job_fits(job: Ktx2Job, source: (u32, u32), width: u32, height: u32, role: TextureType)
    requires
        job_for(job, source, width, height, role),
    ensures
        job.width <= width,
        job.height <= height,
{
}

/// `compress` may be called on every job.
pub open spec fn accepts_jobs<E: Fn(Ktx2Job) -> Result<Vec<u8>, String>>(compress: E) -> bool {
    forall|job: Ktx2Job| call_requires(compress, (job,))
}

/// What a conversion of `data` to KTX2 with the compressor `compress` may return.
///
/// Bytes that do not decode give a failure at decoding, and nothing else does. A
/// target that cannot be allocated gives a failure at scaling. A failure at
/// encoding is the error that `compress` returned for the job that [`job_for`]
/// describes, with its message. On success the bytes are what `compress` returned
/// for that job.
pub open spec fn pressed<E: Fn(Ktx2Job) -> Result<Vec<u8>, String>>(
    compress: E,
    data: Seq<u8>,
    width: u32,
    height: u32,
    role: TextureType,
    r: Result<Vec<u8>, CodecFailure>,
) -> bool {
    &&& decoded_size(data) is None ==> r is Err
    &&& unscalable(data, width, height) ==> (r matches Err(f) && f.stage is Resize)
    &&& match r {
        Ok(bytes) => compressed(compress, data, width, height, role, bytes@),
        Err(f) => {
            &&& stage_explained(f.stage, data, width, height)
            &&& f.stage is Encode ==> refused(compress, data, width, height, role, f.message)
        },
    }
}

/// Decodes `img_data`, converts the picture to four 8-bit channels, scales it
/// down to `width` by `height` where it is larger, and has `compress` turn it into
/// a KTX2 file.
///
/// `compress` is called at most once, and only with the job that [`job_for`]
/// describes. See [`pressed`].
pub fn resize_to_ktx2<E: Fn(Ktx2Job) -> Result<Vec<u8>, String>>(
    img_data: &[u8],
    width: u32,
    height: u32,
    texture_type: TextureType,
    compress: &E,
) -> (r: Result<Vec<u8>, CodecFailure>)
    requires
        accepts_jobs(*compress),
    ensures
        pressed(*compress, img_data@, width, height, texture_type, r),
{
    let img = decode(img_data)?;
    let rgba = to_rgba(&img);
    let fitted = fit(rgba, width, height)?;
    let fitted_width = image_width(&fitted);
    let fitted_height = image_height(&fitted);
    let threads: usize = cpu_count();
    let job = Ktx2Job {
        width: fitted_width,
        height: fitted_height,
        rgba: image_bytes(&fitted),
        profile: compression_profile(texture_type),
        uastc: false,
        thread_count: #[verifier::truncate] (threads as u32),
        tool: String::from_str("glb_opt"),
        dimensions: dimensions_text(fitted_width, fitted_height),
        compression_mode: String::from_str("ETC1S"),
    };
    proof {
        reveal_strlit("glb_opt");
        reveal_strlit("ETC1S");
        assert(job.tool@ =~= seq!['g', 'l', 'b', '_', 'o', 'p', 't']);
        assert(job.compression_mode@ =~= seq!['E', 'T', 'C', '1', 'S']);
        assert(picture_pixels(fitted) == job.rgba@);
        assert(job_for(job, decoded_size(img_data@)->0, width, height, texture_type));
    }
    match compress(job) {
        Ok(bytes) => Ok(bytes),
        Err(message) => Err(CodecFailure { stage: CodecStage::Encode, message }),
    }
}

} // verus!
