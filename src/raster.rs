use crate::converter::{
    lemma_convert_deterministic, lemma_found_in_palette, rgb_at, DalImageConverter, UnknownColorId,
};
use image::DynamicImage;
use vstd::prelude::*;

verus! {

#[verifier::external_type_specification]
#[verifier::external_body]
pub struct ExDynamicImage(image::DynamicImage);

/// Width and height of a decoded image.
pub uninterp spec fn image_dims(img: DynamicImage) -> (u32, u32);

/// The bytes of the three-channel, eight-bit copy of a decoded image.
pub uninterp spec fn rgb8_data(img: DynamicImage) -> Seq<u8>;

/// The image turned a quarter clockwise.
pub uninterp spec fn turned(img: DynamicImage) -> DynamicImage;

/// The image resampled to `w` by `h` with the three-lobe Lanczos filter.
pub uninterp spec fn lanczos3_resized(img: DynamicImage, w: u32, h: u32) -> DynamicImage;

/// The three-channel, eight-bit image of `w` by `h` whose bytes are `bytes`.
pub uninterp spec fn rgb8_image_of(w: u32, h: u32, bytes: Seq<u8>) -> DynamicImage;

/// Relies on `DynamicImage::width`: the width of the image.
pub assume_specification[ image::DynamicImage::width ](img: &DynamicImage) -> (r: u32)
    ensures
        r == image_dims(*img).0,
;

/// Relies on `DynamicImage::height`: the height of the image.
pub assume_specification[ image::DynamicImage::height ](img: &DynamicImage) -> (r: u32)
    ensures
        r == image_dims(*img).1,
;

/// Relies on `DynamicImage::rotate90`: a clockwise quarter turn, which
/// swaps width and height.
pub assume_specification[ image::DynamicImage::rotate90 ](img: &DynamicImage) -> (r: DynamicImage)
    ensures
        r == turned(*img),
        image_dims(r) == (image_dims(*img).1, image_dims(*img).0),
;

/// Relies on `DynamicImage::resize_exact` with the three-lobe Lanczos filter:
/// the result has exactly the requested dimensions. Its working buffers hold
/// at most sixteen bytes per pixel of the source width by the new height, and
/// of the new size.
#[verifier::external_body]
fn resize_lanczos3(img: &DynamicImage, nwidth: u32, nheight: u32) -> (r: DynamicImage)
    requires
        16 * (image_dims(*img).0 as int) * (nheight as int) <= isize::MAX,
        16 * (nwidth as int) * (nheight as int) <= isize::MAX,
    ensures
        r == lanczos3_resized(*img, nwidth, nheight),
        image_dims(r) == (nwidth, nheight),
{
    img.resize_exact(nwidth, nheight, image::imageops::FilterType::Lanczos3)
}

/// Relies on `DynamicImage::to_rgb8` and `ImageBuffer::into_raw`: the bytes
/// of the RGB copy, at least three per pixel.
#[verifier::external_body]
fn rgb8_bytes(img: &DynamicImage) -> (r: Vec<u8>)
    requires
        3 * (image_dims(*img).0 as int) * (image_dims(*img).1 as int) <= isize::MAX,
    ensures
        r@ == rgb8_data(*img),
        r@.len() >= 3 * (image_dims(*img).0 as int) * (image_dims(*img).1 as int),
{
    img.to_rgb8().into_raw()
}

/// Relies on `ImageBuffer::from_raw`, wrapped as `DynamicImage::ImageRgb8`:
/// it takes the buffer as the image's bytes when the buffer holds three bytes
/// for each pixel, and refuses it otherwise.
#[verifier::external_body]
fn rgb8_image(width: u32, height: u32, buf: Vec<u8>) -> (r: Option<DynamicImage>)
    ensures
        r is Some <==> 3 * (width as int) * (height as int) <= buf@.len(),
        r matches Some(img) ==> img == rgb8_image_of(width, height, buf@),
        r matches Some(img) ==> image_dims(img) == (width, height) && rgb8_data(img) == buf@,
{
    image::RgbImage::from_raw(width, height, buf).map(DynamicImage::ImageRgb8)
}

/// Whether an image of `width` by `height` is turned before resizing: only
/// a portrait image, and only when asked.
pub fn should_rotate(width: u32, height: u32, auto_rotate: bool) -> (r: bool)
    ensures
        r == (auto_rotate && width < height),
{
    auto_rotate && width < height
}

/// Turns a portrait image a quarter turn when `auto_rotate` is set; any
/// other image is returned as it is. A turned image is landscape.
pub fn rotate_for_landscape(img: DynamicImage, auto_rotate: bool) -> (r: DynamicImage)
    ensures
        should_rotate_spec(image_dims(img), auto_rotate) ==> image_dims(r) == (
            image_dims(img).1,
            image_dims(img).0,
        ),
        should_rotate_spec(image_dims(img), auto_rotate) ==> r == turned(img),
        !should_rotate_spec(image_dims(img), auto_rotate) ==> r == img,
        auto_rotate && image_dims(img).0 < image_dims(img).1 ==> image_dims(r).0 >= image_dims(r).1,
{
    if should_rotate(img.width(), img.height(), auto_rotate) {
        img.rotate90()
    } else {
        img
    }
}

/// An image of `dims` is turned: it is portrait and turning was asked for.
pub open spec fn should_rotate_spec(dims: (u32, u32), auto_rotate: bool) -> bool {
    auto_rotate && dims.0 < dims.1
}

/// What normalization makes of `img`: turned if portrait and asked for,
/// then resampled to exactly `dim`.
pub open spec fn normalized(img: DynamicImage, auto_rotate: bool, dim: (u32, u32)) -> DynamicImage {
    lanczos3_resized(
        if should_rotate_spec(image_dims(img), auto_rotate) {
            turned(img)
        } else {
            img
        },
        dim.0,
        dim.1,
    )
}

/// An image that can be turned and resized to `dim` without a working
/// buffer beyond what the machine can address.
pub open spec fn fits_resize(dims: (u32, u32), dim: (u32, u32)) -> bool {
    &&& 16 * (dims.0 as int) * (dim.1 as int) <= isize::MAX
    &&& 16 * (dims.1 as int) * (dim.1 as int) <= isize::MAX
    &&& 16 * (dim.0 as int) * (dim.1 as int) <= isize::MAX
}

impl DalImageConverter {
    /// `out` is the three-channel, eight-bit image of the converter's size
    /// whose bytes are the pixel rewrite of the RGB copy of the normalized
    /// input.
    pub open spec fn process_post<F: Fn([u8; 3]) -> u64>(
        &self,
        nearest: F,
        img: DynamicImage,
        auto_rotate: bool,
        out: DynamicImage,
    ) -> bool {
        &&& out == rgb8_image_of(self.dims().0, self.dims().1, rgb8_data(out))
        &&& self.convert_post(nearest, rgb8_data(normalized(img, auto_rotate, self.dims())), rgb8_data(out))
    }

    /// Turns a portrait image when `auto_rotate` is set, then resamples it to
    /// exactly the converter's dimensions.
    pub fn resize_and_rotate(&self, img: DynamicImage, auto_rotate: bool) -> (r: DynamicImage)
        requires
            fits_resize(image_dims(img), self.dims()),
        ensures
            r == normalized(img, auto_rotate, self.dims()),
            image_dims(r) == self.dims(),
    {
        let dim = self.dim();
        let img = rotate_for_landscape(img, auto_rotate);
        resize_lanczos3(&img, dim.0, dim.1)
    }

    /// Normalizes the image, then replaces each pixel of its RGB copy by the
    /// palette color of what `nearest` gives for it. The result has the
    /// converter's dimensions and only palette colors.
    pub fn process<F: Fn([u8; 3]) -> u64>(&self, img: DynamicImage, auto_rotate: bool, nearest: &F) -> (r: Result<
        DynamicImage,
        UnknownColorId,
    >)
        requires
            self.wf(),
            forall|c: [u8; 3]| call_requires(*nearest, (c,)),
            fits_resize(image_dims(img), self.dims()),
        ensures
            r matches Ok(out) ==> self.process_post(*nearest, img, auto_rotate, out),
            r matches Ok(out) ==> image_dims(out) == self.dims(),
            r matches Ok(out) ==> forall|p: int|
                0 <= p < (self.dims().0 as int) * (self.dims().1 as int) ==> self.palette().contains(
                    #[trigger] rgb_at(rgb8_data(out), p),
                ),
            self.search_in_range(*nearest) ==> r is Ok,
    {
        let dim = self.dim();
        let img = self.resize_and_rotate(img, auto_rotate);
        proof {
            let (w, h) = (dim.0 as int, dim.1 as int);
            assert(3 * w * h <= 16 * w * h) by (nonlinear_arith)
                requires
                    w >= 0,
                    h >= 0,
            ;
        }
        let mut buf = rgb8_bytes(&img);
        let ghost before = buf@;
        match self.convert(&mut buf, nearest) {
            Ok(()) => {},
            Err(e) => {
                return Err(e);
            },
        }
        proof {
            let (w, h, n) = (dim.0 as int, dim.1 as int, buf@.len() as int);
            assert(w * h <= n / 3) by (nonlinear_arith)
                requires
                    n >= 3 * w * h,
            ;
            assert forall|p: int|
                0 <= p < (dim.0 as int) * (dim.1 as int) implies self.palette().contains(
                #[trigger] rgb_at(buf@, p),
            ) by {
                assert(self.found(*nearest, rgb_at(before, p), rgb_at(buf@, p)));
                lemma_found_in_palette(self, *nearest, rgb_at(before, p), rgb_at(buf@, p));
            }
        }
        match rgb8_image(dim.0, dim.1, buf) {
            Some(out) => Ok(out),
            None => {
                // The buffer holds three bytes for every output pixel.
                proof {
                    assert(false);
                }
                Err(UnknownColorId { id: 0 })
            },
        }
    }
}

/// On a landscape or square image the rotation flag changes nothing.
pub proof fn lemma_flag_irrelevant_on_landscape(img: DynamicImage, dim: (u32, u32))
    requires
        image_dims(img).0 >= image_dims(img).1,
    ensures
        normalized(img, true, dim) == normalized(img, false, dim),
{
}

/// Two runs of `process` on the same image agree whenever the search gives
/// one identifier per color; on a landscape or square image they agree
/// whatever the rotation flags.
pub proof fn lemma_process_deterministic<F: Fn([u8; 3]) -> u64>(
    conv: &DalImageConverter,
    nearest: F,
    img: DynamicImage,
    rotate_a: bool,
    rotate_b: bool,
    a: DynamicImage,
    b: DynamicImage,
)
    requires
        forall|c: [u8; 3], i: u64, j: u64|
            call_ensures(nearest, (c,), i) && call_ensures(nearest, (c,), j) ==> i == j,
        rotate_a == rotate_b || image_dims(img).0 >= image_dims(img).1,
        conv.process_post(nearest, img, rotate_a, a),
        conv.process_post(nearest, img, rotate_b, b),
    ensures
        a == b,
{
    assert(normalized(img, rotate_a, conv.dims()) == normalized(img, rotate_b, conv.dims()));
    lemma_convert_deterministic(
        conv,
        nearest,
        rgb8_data(normalized(img, rotate_a, conv.dims())),
        rgb8_data(a),
        rgb8_data(b),
    );
}

} // verus!
