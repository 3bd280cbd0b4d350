use crate::chunks::{chunk_set, within};
use crate::cubemap::PatchAddress;
use crate::error::TerrainError;
use crate::mesh::{grid_resolution_ok, ChunkMesh};
use crate::texture::{grid_texture_pixels, texture_byte, texture_resolution_ok};
use image::DynamicImage;
use vstd::prelude::*;

verus! {

/// Number of rings of patches drawn around the patch below the viewpoint.
pub const NEIGHBOUR_RINGS: u32 = 7;

/// What is drawn of the planet: the patches, each once, and the one grid
/// mesh that all of them share.
#[derive(Debug)]
pub struct PlanetChunkModels {
    pub chunks: Vec<PatchAddress>,
    pub mesh: ChunkMesh,
}

/// The patches to draw around the patch `base` of the grid of
/// `face_resolution` cells a side, with the mesh of `resolution` vertices a
/// side for each of them.
pub fn generate_planet_chunk_models(resolution: u32, face_resolution: u32, base: PatchAddress) -> (out:
    Result<PlanetChunkModels, TerrainError>)
    ensures
        out is Ok <==> grid_resolution_ok(resolution) && base.wf(face_resolution),
        out matches Ok(models) ==> {
            &&& models.mesh.wf()
            &&& models.mesh.resolution == resolution
            &&& models.chunks@.no_duplicates()
            &&& models.chunks@.len() > 0
            &&& models.chunks@[0] == base
            &&& forall|i: int|
                0 <= i < models.chunks@.len() ==> (#[trigger] models.chunks@[i]).wf(face_resolution)
            &&& forall|a: PatchAddress|
                models.chunks@.contains(a) <==> within(
                    base,
                    a,
                    face_resolution,
                    NEIGHBOUR_RINGS as nat,
                )
        },
        out matches Err(e) ==> e == TerrainError::InvalidArgument,
{
    if !base.is_valid(face_resolution) {
        return Err(TerrainError::InvalidArgument);
    }
    match ChunkMesh::build(resolution) {
        Ok(mesh) => {
            let chunks = chunk_set(base, face_resolution, NEIGHBOUR_RINGS);
            Ok(PlanetChunkModels { chunks, mesh })
        },
        Err(e) => Err(e),
    }
}

/// `image::DynamicImage`; what it holds goes by the names `image_bytes`,
/// `image_size` and `image_is_rgb8`.
#[verifier::external_type_specification]
#[verifier::external_body]
pub struct ExDynamicImage(DynamicImage);

/// The bytes of an image in the order in which it stores them, as
/// `DynamicImage::to_bytes` hands them out.
pub uninterp spec fn image_bytes(img: DynamicImage) -> Seq<u8>;

/// Width and height of an image in pixels, as `dimensions` reports them.
pub uninterp spec fn image_size(img: DynamicImage) -> (u32, u32);

/// Whether the image stores its pixels as 8-bit red, green and blue, which
/// is when `as_rgb8` hands out its buffer.
pub uninterp spec fn image_is_rgb8(img: DynamicImage) -> bool;

/// The number of bytes of a row of 8-bit RGB pixels can be computed, and
/// `len` bytes are enough for `height` such rows.
pub open spec fn rgb_buffer_fits(width: u32, height: u32, len: nat) -> bool {
    3 * width <= usize::MAX && 3 * width * height <= len
}

/// `image::ImageBuffer::from_raw` on a buffer of 8-bit RGB pixels, wrapped
/// as `DynamicImage::ImageRgb8`.
///
/// The call succeeds exactly when the buffer holds at least three bytes for
/// each of the `width * height` pixels, that number being computed without
/// overflow. The image then is an 8-bit RGB image of the given size and
/// keeps the buffer as it is.
#[verifier::external_body]
fn rgb_image(width: u32, height: u32, data: Vec<u8>) -> (out: Option<DynamicImage>)
    ensures
        out is Some <==> rgb_buffer_fits(width, height, data@.len()),
        out matches Some(img) ==> image_is_rgb8(img) && image_size(img) == (width, height)
            && image_bytes(img) == data@,
{
    image::ImageBuffer::from_raw(width, height, data).map(DynamicImage::ImageRgb8)
}

/// The square 8-bit RGB texture that shows a grid of cells:
/// `texture_resolution` pixels a side, `chunk_resolution` cells a side.
pub fn generate_grid_texture(texture_resolution: u32, chunk_resolution: u32) -> (out: Result<
    DynamicImage,
    TerrainError,
>)
    ensures
        out is Ok <==> texture_resolution_ok(texture_resolution) && chunk_resolution >= 1,
        out matches Ok(img) ==> {
            &&& image_is_rgb8(img)
            &&& image_size(img) == (texture_resolution, texture_resolution)
            &&& image_bytes(img).len() == 3 * (texture_resolution * texture_resolution)
            &&& forall|i: int|
                0 <= i < image_bytes(img).len() ==> #[trigger] image_bytes(img)[i] == texture_byte(
                    texture_resolution,
                    chunk_resolution,
                    i,
                )
        },
        out matches Err(e) ==> e == TerrainError::InvalidArgument,
{
    match grid_texture_pixels(texture_resolution, chunk_resolution) {
        Ok(bytes) => {
            assert(3 * texture_resolution * texture_resolution == 3 * (texture_resolution
                * texture_resolution)) by (nonlinear_arith);
            let img = rgb_image(texture_resolution, texture_resolution, bytes);
            Ok(img.unwrap())
        },
        Err(e) => Err(e),
    }
}

} // verus!
