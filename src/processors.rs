//! A skin-tone face detector over RGB images, and loading an image from disk
//! for it.
use vstd::prelude::*;

verus! {

#[verifier::external_type_specification]
#[verifier::external_body]
pub struct ExDynamicImage(image::DynamicImage);

#[verifier::external_type_specification]
#[verifier::external_body]
pub struct ExImageError(image::ImageError);

/// An RGB image: `width * height` pixels in row order, three bytes each.
pub struct RgbFrame {
    pub width: u32,
    pub height: u32,
    pub pixels: Vec<u8>,
}

impl RgbFrame {
    /// The buffer holds exactly the image's pixels.
    pub open spec fn wf(&self) -> bool {
        self.pixels@.len() == 3 * self.width * self.height
    }
}

/// A region that may hold a face, with the skin-coloured pixels that made it one.
pub struct Detection {
    /// The region as `(x, y, width, height)`.
    pub bounding_box: (u32, u32, u32, u32),
    /// Skin-coloured pixels in the region.
    pub skin_pixels: u64,
    /// Pixels in the region; the confidence is `skin_pixels / total_pixels`.
    pub total_pixels: u64,
}

/// Why no detections came out of an image file.
#[derive(Debug, PartialEq, Eq, Structural)]
pub enum ProcessImageError {
    /// The file could not be opened or decoded as an image.
    Unreadable,
    /// The image is too small to search: its larger side is under 20 pixels.
    TooSmall,
}

/// A crude skin-colour test on one RGB pixel.
pub open spec fn is_skin(r: int, g: int, b: int) -> bool {
    r > 95 && g > 40 && b > 20 && r > g && r > b && r - g > 15 && r - b > 15
}

/// Pixel `(px, py)` lies in the image and is skin-coloured.
pub open spec fn skin_at(f: RgbFrame, px: int, py: int) -> bool {
    &&& 0 <= px < f.width
    &&& 0 <= py < f.height
    &&& {
        let k = (py * f.width + px) * 3;
        is_skin(f.pixels@[k] as int, f.pixels@[k + 1] as int, f.pixels@[k + 2] as int)
    }
}

/// Skin-coloured pixels among `(x .. x + n, py)`.
pub open spec fn row_skin(f: RgbFrame, x: int, n: int, py: int) -> int
    decreases n,
{
    if n <= 0 {
        0
    } else {
        row_skin(f, x, n - 1, py) + if skin_at(f, x + n - 1, py) {
            1int
        } else {
            0int
        }
    }
}

/// Skin-coloured pixels in the region `(x, y, w, h)`, counting only those in the image.
pub open spec fn region_skin(f: RgbFrame, x: int, y: int, w: int, h: int) -> int
    decreases h,
{
    if h <= 0 {
        0
    } else {
        region_skin(f, x, y, w, h - 1) + row_skin(f, x, w, y + h - 1)
    }
}

proof fn lemma_row_skin_bound(f: RgbFrame, x: int, n: int, py: int)
    requires
        n >= 0,
    ensures
        0 <= row_skin(f, x, n, py) <= n,
    decreases n,
{
    if n > 0 {
        lemma_row_skin_bound(f, x, n - 1, py);
    }
}

proof fn lemma_region_skin_bound(f: RgbFrame, x: int, y: int, w: int, h: int)
    requires
        w >= 0,
        h >= 0,
    ensures
        0 <= region_skin(f, x, y, w, h) <= h * w,
    decreases h,
{
    if h > 0 {
        lemma_region_skin_bound(f, x, y, w, h - 1);
        lemma_row_skin_bound(f, x, w, y + h - 1);
        assert((h - 1) * w + w == h * w) by (nonlinear_arith);
    }
}

proof fn lemma_pixel_index(width: int, height: int, px: int, py: int)
    requires
        0 <= px < width,
        0 <= py < height,
    ensures
        0 <= (py * width + px) * 3,
        (py * width + px) * 3 + 2 < 3 * width * height,
{
    assert(py * width + px < width * height) by (nonlinear_arith)
        requires
            0 <= px < width,
            0 <= py < height,
    ;
    assert(0 <= py * width) by (nonlinear_arith)
        requires
            0 <= py,
            0 <= width,
    ;
    assert(3 * width * height == 3 * (width * height)) by (nonlinear_arith);
}

/// Counts the skin-coloured pixels of the region `(x, y, width, height)`;
/// pixels of the region outside the image are not counted.
pub fn count_skin_pixels(image: &RgbFrame, x: u32, y: u32, width: u32, height: u32) -> (count: u64)
    requires
        image.wf(),
    ensures
        count == region_skin(*image, x as int, y as int, width as int, height as int),
{
    let mut count: u64 = 0;
    let mut j: u64 = 0;
    while j < height as u64
        invariant
            image.wf(),
            0 <= j <= height,
            count == region_skin(*image, x as int, y as int, width as int, j as int),
        decreases height - j,
    {
        let py = y as u64 + j;
        let mut i: u64 = 0;
        proof {
            lemma_region_skin_bound(*image, x as int, y as int, width as int, j as int);
        }
        while i < width as u64
            invariant
                image.wf(),
                0 <= j < height,
                0 <= i <= width,
                py == y + j,
                count == region_skin(*image, x as int, y as int, width as int, j as int)
                    + row_skin(*image, x as int, i as int, py as int),
                region_skin(*image, x as int, y as int, width as int, j as int) <= j * width,
            decreases width - i,
        {
            let px = x as u64 + i;
            proof {
                lemma_row_skin_bound(*image, x as int, i as int, py as int);
                assert(j * width + i + 1 <= height * width) by (nonlinear_arith)
                    requires
                        0 <= j < height,
                        0 <= i < width,
                ;
                assert(height * width <= 0xffff_ffff * 0xffff_ffff) by (nonlinear_arith)
                    requires
                        height <= 0xffff_ffff,
                        width <= 0xffff_ffff,
                ;
            }
            if px < image.width as u64 && py < image.height as u64 {
                let len = image.pixels.len();
                proof {
                    lemma_pixel_index(image.width as int, image.height as int, px as int, py as int);
                    assert(len == image.pixels@.len());
                    assert(usize::MAX <= u64::MAX);
                    assert(0 <= py * image.width <= py * image.width + px);
                }
                let k = ((py * image.width as u64 + px) * 3) as usize;
                let r = image.pixels[k];
                let g = image.pixels[k + 1];
                let b = image.pixels[k + 2];
                if r > 95 && g > 40 && b > 20 && r > g && r > b && r - g > 15 && r - b > 15 {
                    count = count + 1;
                }
            }
            i = i + 1;
        }
        j = j + 1;
    }
    count
}

/// Grid step of the search, which is also the smallest face size: a
/// twentieth of the larger side.
pub open spec fn search_step(f: RgbFrame) -> int {
    if f.width >= f.height {
        f.width as int / 20
    } else {
        f.height as int / 20
    }
}

/// Largest face size: half of the smaller side.
pub open spec fn max_face_size(f: RgbFrame) -> int {
    if f.width <= f.height {
        f.width as int / 2
    } else {
        f.height as int / 2
    }
}

/// The detection at grid point `(x, y)`, if any: the region there, cut to
/// the image and to the largest face size, is at least the smallest face size
/// on both sides and more than 30% of its pixels are skin-coloured.
pub open spec fn detection_at(f: RgbFrame, x: int, y: int) -> Option<Detection> {
    let m = max_face_size(f);
    let rw = if m < f.width - x {
        m
    } else {
        f.width - x
    };
    let rh = if m < f.height - y {
        m
    } else {
        f.height - y
    };
    if rw >= search_step(f) && rh >= search_step(f) {
        let skin = region_skin(f, x, y, rw, rh);
        let total = rw * rh;
        if total > 0 && 10 * skin > 3 * total {
            Some(
                Detection {
                    bounding_box: (x as u32, y as u32, rw as u32, rh as u32),
                    skin_pixels: skin as u64,
                    total_pixels: total as u64,
                },
            )
        } else {
            None
        }
    } else {
        None
    }
}

/// Detections of row `y` at the first `k` grid columns that lie in the image.
pub open spec fn row_detections(f: RgbFrame, y: int, k: int) -> Seq<Detection>
    decreases k,
{
    if k <= 0 {
        Seq::empty()
    } else {
        let prev = row_detections(f, y, k - 1);
        let x = (k - 1) * search_step(f);
        if x < f.width {
            match detection_at(f, x, y) {
                Some(d) => prev.push(d),
                None => prev,
            }
        } else {
            prev
        }
    }
}

/// Detections of the first `k` grid rows that lie in the image, row by row.
pub open spec fn rows_detections(f: RgbFrame, k: int) -> Seq<Detection>
    decreases k,
{
    if k <= 0 {
        Seq::empty()
    } else {
        let prev = rows_detections(f, k - 1);
        let y = (k - 1) * search_step(f);
        if y < f.height {
            prev + row_detections(f, y, f.width as int)
        } else {
            prev
        }
    }
}

/// All detections of an image, in row-major grid order.
pub open spec fn detections(f: RgbFrame) -> Seq<Detection> {
    rows_detections(f, f.height as int)
}

proof fn lemma_row_detections_stable(f: RgbFrame, y: int, k: int, k2: int)
    requires
        0 <= k <= k2,
        search_step(f) >= 1,
        k * search_step(f) >= f.width,
    ensures
        row_detections(f, y, k2) == row_detections(f, y, k),
    decreases k2,
{
    if k2 > k {
        lemma_row_detections_stable(f, y, k, k2 - 1);
        let s = search_step(f);
        assert((k2 - 1) * s >= k * s) by (nonlinear_arith)
            requires
                k2 - 1 >= k,
                s >= 1,
        ;
    }
}

proof fn lemma_rows_detections_stable(f: RgbFrame, k: int, k2: int)
    requires
        0 <= k <= k2,
        search_step(f) >= 1,
        k * search_step(f) >= f.height,
    ensures
        rows_detections(f, k2) == rows_detections(f, k),
    decreases k2,
{
    if k2 > k {
        lemma_rows_detections_stable(f, k, k2 - 1);
        let s = search_step(f);
        assert((k2 - 1) * s >= k * s) by (nonlinear_arith)
            requires
                k2 - 1 >= k,
                s >= 1,
        ;
    }
}

fn detect_at(image: &RgbFrame, x: u32, y: u32, step: u32, max_face: u32) -> (r: Option<Detection>)
    requires
        image.wf(),
        x < image.width,
        y < image.height,
        step == search_step(*image),
        max_face == max_face_size(*image),
    ensures
        r == detection_at(*image, x as int, y as int),
{
    let rw = if max_face < image.width - x {
        max_face
    } else {
        image.width - x
    };
    let rh = if max_face < image.height - y {
        max_face
    } else {
        image.height - y
    };
    if rw >= step && rh >= step {
        let skin = count_skin_pixels(image, x, y, rw, rh);
        proof {
            lemma_region_skin_bound(*image, x as int, y as int, rw as int, rh as int);
            assert(rh * rw <= 0xffff_ffff * 0xffff_ffff) by (nonlinear_arith)
                requires
                    rh <= 0xffff_ffff,
                    rw <= 0xffff_ffff,
            ;
            assert(rw * rh == rh * rw) by (nonlinear_arith);
        }
        let total = rw as u64 * rh as u64;
        if total > 0 && (skin as u128) * 10 > (total as u128) * 3 {
            Some(Detection { bounding_box: (x, y, rw, rh), skin_pixels: skin, total_pixels: total })
        } else {
            None
        }
    } else {
        None
    }
}

/// Searches an image for skin-coloured regions that may be faces.
///
/// Grid points are taken every `search_step` pixels, row by row; at each the
/// region of the largest face size (cut to the image) is kept as a detection
/// when it is at least the smallest face size on both sides and more than 30%
/// of its pixels are skin-coloured. The larger side must be at least 20
/// pixels, so that the step is not zero.
pub fn detect_faces(image: &RgbFrame) -> (r: Vec<Detection>)
    requires
        image.wf(),
        search_step(*image) >= 1,
    ensures
        r@ == detections(*image),
{
    let step: u32 = if image.width >= image.height {
        image.width / 20
    } else {
        image.height / 20
    };
    let max_face: u32 = if image.width <= image.height {
        image.width / 2
    } else {
        image.height / 2
    };
    let ghost s = step as int;
    let mut found: Vec<Detection> = Vec::new();
    let mut y: u64 = 0;
    let ghost mut ky: int = 0;
    while y < image.height as u64
        invariant
            image.wf(),
            s == step == search_step(*image),
            s >= 1,
            max_face == max_face_size(*image),
            0 <= ky,
            y == ky * s,
            y < image.height ==> ky < image.height,
            ky * s >= image.height ==> ky <= image.height,
            found@ == rows_detections(*image, ky),
        decreases image.height + step - y,
    {
        let mut x: u64 = 0;
        let ghost mut kx: int = 0;
        while x < image.width as u64
            invariant
                image.wf(),
                s == step == search_step(*image),
                s >= 1,
                max_face == max_face_size(*image),
                y < image.height,
                0 <= kx <= image.width,
                x == kx * s,
                found@ == rows_detections(*image, ky) + row_detections(*image, y as int, kx),
            decreases image.width + step - x,
        {
            proof {
                assert(kx <= kx * s) by (nonlinear_arith)
                    requires
                        0 <= kx,
                        s >= 1,
                ;
                assert((kx + 1) * s == kx * s + s) by (nonlinear_arith);
            }
            let d = detect_at(image, x as u32, y as u32, step, max_face);
            match d {
                Some(det) => {
                    found.push(det);
                },
                None => {},
            }
            proof {
                assert(found@ =~= rows_detections(*image, ky) + row_detections(
                    *image,
                    y as int,
                    kx + 1,
                ));
            }
            x = x + step as u64;
            proof {
                kx = kx + 1;
            }
        }
        proof {
            lemma_row_detections_stable(*image, y as int, kx, image.width as int);
            assert(ky <= ky * s) by (nonlinear_arith)
                requires
                    0 <= ky,
                    s >= 1,
            ;
            assert((ky + 1) * s == ky * s + s) by (nonlinear_arith);
            assert(found@ =~= rows_detections(*image, ky + 1));
        }
        y = y + step as u64;
        proof {
            ky = ky + 1;
        }
    }
    proof {
        lemma_rows_detections_stable(*image, ky, image.height as int);
    }
    found
}

/// Relies on `image::open`: reads the file and decodes it by its extension.
/// What comes back depends on the disk, so nothing is stated of it.
#[verifier::external_body]
fn open_image(path: &str) -> (r: Result<image::DynamicImage, image::ImageError>) {
    image::open(path)
}

/// Relies on `DynamicImage::to_rgb8`: a copy of the image as 8-bit RGB. Its
/// buffer (taken out with `ImageBuffer::into_raw`) is made by
/// `ImageBuffer::new`, three bytes per pixel in row order.
#[verifier::external_body]
fn rgb_frame_of(img: &image::DynamicImage) -> (r: RgbFrame)
    ensures
        r.wf(),
{
    let rgb = img.to_rgb8();
    let (width, height) = rgb.dimensions();
    RgbFrame { width, height, pixels: rgb.into_raw() }
}

/// Loads an image file as an RGB frame.
pub fn load_image(path: &str) -> (r: Result<RgbFrame, ProcessImageError>)
    ensures
        match r {
            Ok(f) => f.wf(),
            Err(e) => e == ProcessImageError::Unreadable,
        },
{
    match open_image(path) {
        Ok(img) => Ok(rgb_frame_of(&img)),
        Err(_) => Err(ProcessImageError::Unreadable),
    }
}

/// The detections of a frame, or `TooSmall` where its larger side is under 20 pixels.
pub fn process_frame(frame: &RgbFrame) -> (r: Result<Vec<Detection>, ProcessImageError>)
    requires
        frame.wf(),
    ensures
        search_step(*frame) >= 1 ==> (r matches Ok(d) && d@ == detections(*frame)),
        search_step(*frame) < 1 ==> r == Err::<Vec<Detection>, _>(ProcessImageError::TooSmall),
{
    if frame.width < 20 && frame.height < 20 {
        Err(ProcessImageError::TooSmall)
    } else {
        Ok(detect_faces(frame))
    }
}

/// Loads an image file and searches it for faces.
pub fn process_image(image_path: &str) -> (r: Result<Vec<Detection>, ProcessImageError>)
    ensures
        match r {
            Ok(d) => exists|f: RgbFrame|
                f.wf() && search_step(f) >= 1 && #[trigger] detections(f) == d@,
            Err(ProcessImageError::TooSmall) => exists|f: RgbFrame|
                f.wf() && #[trigger] search_step(f) < 1,
            Err(ProcessImageError::Unreadable) => true,
        },
{
    match load_image(image_path) {
        Ok(frame) => process_frame(&frame),
        Err(e) => Err(e),
    }
}

} // verus!
