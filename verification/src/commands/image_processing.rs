//! The decisions of sprite normalization: which image a sprite is
//! normalized from, where it goes, the opaque area of an image, where the
//! resized sprite stands on its tile, and what palette reduction samples.
use vstd::prelude::*;
use crate::error::{message, AppError};
use crate::models::sprite::{latest_image, processed_or_raw, Sprite};
use crate::posix_path::{moved_into, path_in_dir};

verus! {

/// The smallest rectangle that holds every opaque pixel.
#[derive(Debug, Clone, Copy, PartialEq, Eq, Structural)]
pub struct BoundingBox {
    pub x: u32,
    pub y: u32,
    pub width: u32,
    pub height: u32,
}

/// The alpha value of pixel `(x, y)` of an RGBA image stored row by row.
pub open spec fn alpha_at(rgba: Seq<u8>, width: int, x: int, y: int) -> u8 {
    rgba[4 * (y * width + x) + 3]
}

pub open spec fn is_opaque(rgba: Seq<u8>, width: int, height: int, x: int, y: int) -> bool {
    0 <= x < width && 0 <= y < height && alpha_at(rgba, width, x, y) > 0
}

/// `b` is the bounding box of the opaque pixels: they all lie in it, and
/// each of its four edges touches one of them.
pub open spec fn bounds_opaque(rgba: Seq<u8>, width: int, height: int, b: BoundingBox) -> bool {
    let x1 = b.x + b.width - 1;
    let y1 = b.y + b.height - 1;
    &&& b.width >= 1 && b.height >= 1
    &&& forall|x: int, y: int| #[trigger] is_opaque(rgba, width, height, x, y) ==> b.x <= x <= x1 && b.y <= y <= y1
    &&& exists|y: int| #[trigger] is_opaque(rgba, width, height, b.x as int, y)
    &&& exists|y: int| #[trigger] is_opaque(rgba, width, height, x1, y)
    &&& exists|x: int| #[trigger] is_opaque(rgba, width, height, x, b.y as int)
    &&& exists|x: int| #[trigger] is_opaque(rgba, width, height, x, y1)
}

pub open spec fn has_opaque(rgba: Seq<u8>, width: int, height: int) -> bool {
    exists|x: int, y: int| #[trigger] is_opaque(rgba, width, height, x, y)
}

proof fn lemma_pixel_index(width: int, height: int, x: int, y: int)
    requires
        0 <= x < width,
        0 <= y < height,
    ensures
        0 <= 4 * (y * width + x) + 3 < 4 * (width * height),
{
    assert(0 <= y * width) by (nonlinear_arith)
        requires
            0 <= y,
            0 <= width,
    ;
    assert(y * width + x < width * height) by (nonlinear_arith)
        requires
            0 <= x < width,
            0 <= y < height,
    ;
}

/// The bounding box of the opaque pixels of an RGBA image of `width` ×
/// `height` pixels; none when no pixel is opaque (a fully transparent
/// image, or one with no pixels).
pub fn find_alpha_bounding_box(width: u32, height: u32, rgba: &Vec<u8>) -> (r: Option<BoundingBox>)
    requires
        rgba.len() == 4 * (width * height),
    ensures
        has_opaque(rgba@, width as int, height as int) ==> (r matches Some(b) && bounds_opaque(
            rgba@,
            width as int,
            height as int,
            b,
        )),
        !has_opaque(rgba@, width as int, height as int) ==> r is None,
{
    let ghost img = rgba@;
    let ghost w = width as int;
    let ghost h = height as int;
    let mut min_x: u32 = width;
    let mut min_y: u32 = height;
    let mut max_x: u32 = 0;
    let mut max_y: u32 = 0;
    let mut found = false;
    // witnesses of the extremes
    let ghost mut wx0: int = 0;
    let ghost mut wx1: int = 0;
    let ghost mut wy0: int = 0;
    let ghost mut wy1: int = 0;
    let mut y: u32 = 0;
    while y < height
        invariant
            img == rgba@,
            w == width,
            h == height,
            rgba.len() == 4 * (width * height),
            y <= height,
            found == (exists|px: int, py: int| py < y && #[trigger] is_opaque(img, w, h, px, py)),
            !found ==> min_x == width && min_y == height && max_x == 0 && max_y == 0,
            found ==> {
                &&& forall|px: int, py: int| py < y && #[trigger] is_opaque(img, w, h, px, py) ==> min_x <= px <= max_x
                    && min_y <= py <= max_y
                &&& is_opaque(img, w, h, min_x as int, wy0) && wy0 < y
                &&& is_opaque(img, w, h, max_x as int, wy1) && wy1 < y
                &&& is_opaque(img, w, h, wx0, min_y as int) && min_y < y
                &&& is_opaque(img, w, h, wx1, max_y as int) && max_y < y
            },
        decreases height - y,
    {
        let mut x: u32 = 0;
        while x < width
            invariant
                img == rgba@,
                w == width,
                h == height,
                rgba.len() == 4 * (width * height),
                y < height,
                x <= width,
                found == (exists|px: int, py: int| (py < y || (py == y && px < x)) && #[trigger] is_opaque(img, w, h, px, py)),
                !found ==> min_x == width && min_y == height && max_x == 0 && max_y == 0,
                found ==> {
                    &&& forall|px: int, py: int| (py < y || (py == y && px < x)) && #[trigger] is_opaque(img, w, h, px, py)
                        ==> min_x <= px <= max_x && min_y <= py <= max_y
                    &&& is_opaque(img, w, h, min_x as int, wy0) && wy0 <= y
                    &&& is_opaque(img, w, h, max_x as int, wy1) && wy1 <= y
                    &&& is_opaque(img, w, h, wx0, min_y as int) && min_y <= y
                    &&& is_opaque(img, w, h, wx1, max_y as int) && max_y <= y
                },
            decreases width - x,
        {
            proof {
                lemma_pixel_index(w, h, x as int, y as int);
            }
            let idx: usize = (4 * ((y as u64) * (width as u64) + (x as u64)) + 3) as usize;
            if rgba[idx] > 0 {
                proof {
                    assert(is_opaque(img, w, h, x as int, y as int));
                }
                if !found || x < min_x {
                    min_x = x;
                    proof { wy0 = y as int; }
                }
                if !found || y < min_y {
                    min_y = y;
                    proof { wx0 = x as int; }
                }
                if !found || x > max_x {
                    max_x = x;
                    proof { wy1 = y as int; }
                }
                if !found || y > max_y {
                    max_y = y;
                    proof { wx1 = x as int; }
                }
                found = true;
            }
            x = x + 1;
        }
        y = y + 1;
    }
    if !found {
        proof {
            assert forall|px: int, py: int| !is_opaque(img, w, h, px, py) by {
                if is_opaque(img, w, h, px, py) {
                    assert(py < y);
                }
            }
        }
        return None;
    }
    proof {
        assert forall|px: int, py: int| #[trigger] is_opaque(img, w, h, px, py) implies min_x <= px <= max_x
            && min_y <= py <= max_y by {
            assert(py < y);
        }
    }
    let b = BoundingBox { x: min_x, y: min_y, width: max_x - min_x + 1, height: max_y - min_y + 1 };
    proof {
        assert(is_opaque(img, w, h, b.x as int, wy0));
        assert(is_opaque(img, w, h, b.x + b.width - 1, wy1));
        assert(is_opaque(img, w, h, wx0, b.y as int));
        assert(is_opaque(img, w, h, wx1, b.y + b.height - 1));
    }
    Some(b)
}

/// Half of `d`, rounded toward zero, as Rust's integer division does.
pub open spec fn half_toward_zero(d: int) -> int {
    if d >= 0 { d / 2 } else { -((-d) / 2) }
}

/// Where a resized sprite is drawn on its tile: centered across, resting
/// on the bottom edge.
pub fn tile_offset(tile_width: u32, tile_height: u32, width: u32, height: u32) -> (r: (i64, i64))
    ensures
        r.0 == half_toward_zero(tile_width - width),
        r.1 == tile_height - height,
{
    let d: i64 = tile_width as i64 - width as i64;
    let ox: i64 = if d >= 0 { d / 2 } else { -((-d) / 2) };
    (ox, tile_height as i64 - height as i64)
}

// ------------------------------------------------------------------
// Inputs and outputs
// ------------------------------------------------------------------

/// The image a sprite is normalized from: processed, else raw; a sprite
/// with neither is rejected.
pub fn normalize_input(sprite: &Sprite) -> (r: Result<String, AppError>)
    ensures
        match processed_or_raw(*sprite) {
            Some(p) => r matches Ok(s) && s@ == p,
            None => r matches Err(AppError::Validation(m)) && m@ == "Sprite has no image path"@,
        },
{
    match sprite.processed_or_raw_path() {
        Some(p) => Ok(p),
        None => Err(AppError::Validation(message("Sprite has no image path"))),
    }
}

/// The image whose palette is normalized: final, else processed, else raw.
pub fn palette_input(sprite: &Sprite) -> (r: Result<String, AppError>)
    ensures
        match latest_image(*sprite) {
            Some(p) => r matches Ok(s) && s@ == p,
            None => r matches Err(AppError::Validation(m)) && m@ == "画像パスがありません"@,
        },
{
    match sprite.latest_image_path() {
        Some(p) => Ok(p),
        None => Err(AppError::Validation(message("画像パスがありません"))),
    }
}

/// Where a processed file goes in `dir`, under its own name; a path with
/// no file name is an internal error with the given message.
pub fn output_in_dir(dir: &str, path: &str, no_name_message: &str) -> (r: Result<String, AppError>)
    ensures
        match moved_into(dir@, path@) {
            Some(d) => r matches Ok(s) && s@ == d,
            None => r matches Err(AppError::Internal(m)) && m@ == no_name_message@,
        },
{
    match path_in_dir(dir, path) {
        Some(d) => Ok(d),
        None => Err(AppError::Internal(no_name_message.to_owned())),
    }
}

/// The positions of the sprites that batch normalization processes: those
/// with a processed or raw image, in order.
pub fn normalize_targets(sprites: &Vec<Sprite>) -> (r: Vec<usize>)
    ensures
        r@ == Seq::new(sprites.len() as nat, |i: int| i as usize).filter(
            |i: usize| processed_or_raw(sprites@[i as int]) is Some,
        ),
{
    let ghost all = Seq::new(sprites.len() as nat, |i: int| i as usize);
    let ghost pred = |i: usize| processed_or_raw(sprites@[i as int]) is Some;
    let mut r: Vec<usize> = Vec::new();
    let mut i: usize = 0;
    proof {
        reveal(Seq::filter);
        assert(all.take(0) =~= Seq::<usize>::empty());
    }
    while i < sprites.len()
        invariant
            i <= sprites.len(),
            all == Seq::new(sprites.len() as nat, |i: int| i as usize),
            pred == (|i: usize| processed_or_raw(sprites@[i as int]) is Some),
            r@ == all.take(i as int).filter(pred),
        decreases sprites.len() - i,
    {
        proof {
            reveal(Seq::filter);
            assert(all.take(i + 1).drop_last() =~= all.take(i as int));
            assert(all.take(i + 1).last() == i);
        }
        if sprites[i].raw_path.is_some() || sprites[i].processed_path.is_some() {
            r.push(i);
        }
        i = i + 1;
    }
    proof {
        assert(all.take(sprites.len() as int) =~= all);
    }
    r
}

/// The positions of the sprites whose palette is normalized: those with
/// any image, in order.
pub fn palette_targets(sprites: &Vec<Sprite>) -> (r: Vec<usize>)
    ensures
        r@ == Seq::new(sprites.len() as nat, |i: int| i as usize).filter(
            |i: usize| latest_image(sprites@[i as int]) is Some,
        ),
{
    let ghost all = Seq::new(sprites.len() as nat, |i: int| i as usize);
    let ghost pred = |i: usize| latest_image(sprites@[i as int]) is Some;
    let mut r: Vec<usize> = Vec::new();
    let mut i: usize = 0;
    proof {
        reveal(Seq::filter);
        assert(all.take(0) =~= Seq::<usize>::empty());
    }
    while i < sprites.len()
        invariant
            i <= sprites.len(),
            all == Seq::new(sprites.len() as nat, |i: int| i as usize),
            pred == (|i: usize| latest_image(sprites@[i as int]) is Some),
            r@ == all.take(i as int).filter(pred),
        decreases sprites.len() - i,
    {
        proof {
            reveal(Seq::filter);
            assert(all.take(i + 1).drop_last() =~= all.take(i as int));
            assert(all.take(i + 1).last() == i);
        }
        if sprites[i].final_path.is_some() || sprites[i].processed_path.is_some() || sprites[i].raw_path.is_some() {
            r.push(i);
        }
        i = i + 1;
    }
    proof {
        assert(all.take(sprites.len() as int) =~= all);
    }
    r
}

// ------------------------------------------------------------------
// Palette reduction
// ------------------------------------------------------------------

/// How colors are spread when the palette is reduced.
#[derive(Debug, Clone, Copy, PartialEq, Eq, Structural)]
pub enum DitheringMethod {
    /// Each pixel takes its nearest palette color (`none`).
    NoDithering,
    FloydSteinberg,
    Ordered,
}

/// How a palette is reduced.
#[derive(Debug, Clone, Copy, PartialEq, Eq, Structural)]
pub struct PaletteParams {
    pub max_colors: u32,
    pub dithering: DitheringMethod,
    pub preserve_alpha: bool,
}

/// The RGB values that the palette is learned from: every pixel's, or
/// only the opaque pixels' when alpha is preserved.
pub open spec fn palette_samples_of(rgba: Seq<u8>, preserve_alpha: bool) -> Seq<u8>
    decreases rgba.len(),
{
    if rgba.len() < 4 {
        Seq::empty()
    } else {
        let n = rgba.len() - 4;
        let prev = palette_samples_of(rgba.take(n), preserve_alpha);
        if !preserve_alpha || rgba[n + 3] > 0 {
            prev + seq![rgba[n], rgba[n + 1], rgba[n + 2]]
        } else {
            prev
        }
    }
}

/// The samples of an RGBA image, three bytes per kept pixel.
pub fn palette_samples(rgba: &Vec<u8>, preserve_alpha: bool) -> (r: Vec<u8>)
    requires
        rgba.len() % 4 == 0,
    ensures
        r@ == palette_samples_of(rgba@, preserve_alpha),
{
    let mut r: Vec<u8> = Vec::new();
    let mut i: usize = 0;
    proof {
        assert(rgba@.take(0) =~= Seq::<u8>::empty());
    }
    while i < rgba.len()
        invariant
            i <= rgba.len(),
            i % 4 == 0,
            rgba.len() % 4 == 0,
            r@ == palette_samples_of(rgba@.take(i as int), preserve_alpha),
        decreases rgba.len() - i,
    {
        proof {
            let t = rgba@.take(i + 4);
            assert(t.take(i as int) =~= rgba@.take(i as int));
            assert(t.len() == i + 4);
        }
        if !preserve_alpha || rgba[i + 3] > 0 {
            let ghost prev = r@;
            r.push(rgba[i]);
            r.push(rgba[i + 1]);
            r.push(rgba[i + 2]);
            proof {
                assert(r@ =~= prev + seq![rgba@[i as int], rgba@[i + 1], rgba@[i + 2]]);
            }
        }
        i = i + 4;
    }
    proof {
        assert(rgba@.take(rgba.len() as int) =~= rgba@);
    }
    r
}

/// The image is kept as it is when nothing is sampled or no color is asked for.
pub fn palette_keeps_image(samples: &Vec<u8>, max_colors: u32) -> (b: bool)
    ensures
        b == (samples.len() == 0 || max_colors == 0),
{
    samples.len() == 0 || max_colors == 0
}

/// The number of palette colors: the asked number, at most 256.
pub fn palette_size(max_colors: u32) -> (n: usize)
    ensures
        n == (if max_colors <= 256 { max_colors as int } else { 256 }),
{
    if max_colors <= 256 { max_colors as usize } else { 256 }
}

} // verus!
