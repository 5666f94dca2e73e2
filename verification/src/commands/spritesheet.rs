//! Laying out a character's finalized sprites on one spritesheet: one row per
//! direction, the animations' frames one after another along the row.
use vstd::prelude::*;
use crate::commands::bevy_export::{meta_describes, start_column};
use crate::models::project::{frame_total, lemma_frame_total_prefix, lemma_frame_total_step, AnimationDef};
use crate::models::sprite::Sprite;
use crate::posix_path::{join, join_path};
use crate::text::{chars_of, chars_eq, str_eq};

verus! {

/// The result of generating a spritesheet.
#[derive(Debug)]
pub struct SpritesheetResult {
    pub path: String,
    pub width: u32,
    pub height: u32,
    pub columns: u32,
    pub rows: u32,
    pub missing_frames: Vec<MissingFrame>,
}

/// A cell of the sheet that no image fills.
#[derive(Debug)]
pub struct MissingFrame {
    pub direction: String,
    pub animation: String,
    pub frame_index: i32,
}

/// One cell of the sheet and the image meant to fill it.
#[derive(Debug)]
pub struct SheetCell {
    pub direction: String,
    pub animation: String,
    pub frame_index: i32,
    /// Column of the cell.
    pub col: u32,
    /// Pixel position of the cell's top-left corner.
    pub x: u32,
    pub y: u32,
    /// The image that fills the cell, if a finalized sprite provides one.
    pub source: Option<String>,
}

/// The layout of a sheet: its size and its cells, row by row.
#[derive(Debug)]
pub struct SheetPlan {
    pub width: u32,
    pub height: u32,
    pub columns: u32,
    pub rows: u32,
    pub cells: Vec<Vec<SheetCell>>,
    /// `{base_path}/{character}/spritesheet/{character}.png`.
    pub path: String,
}

/// A sprite takes part in the sheet when it is finalized and has a final image.
pub open spec fn is_sheet_ready(s: Sprite) -> bool {
    s.status@ == "finalized"@ && s.final_path is Some
}

/// The final image of the last sheet-ready sprite with this direction,
/// animation and frame (a later sprite with the same key replaces an earlier).
pub open spec fn sheet_source(sprites: Seq<Sprite>, direction: Seq<char>, animation: Seq<char>, frame: int) -> Option<Seq<char>>
    decreases sprites.len(),
{
    if sprites.len() == 0 {
        None
    } else {
        let s = sprites.last();
        if is_sheet_ready(s) && s.direction@ == direction && s.animation@ == animation
            && s.frame_index as int == frame {
            Some(s.final_path.unwrap()@)
        } else {
            sheet_source(sprites.drop_last(), direction, animation, frame)
        }
    }
}

/// How many frames of an animation are laid out: its frame count, read as
/// an `i32` (a count beyond `i32::MAX` reads as negative and lays out none).
pub open spec fn frames_laid_out(a: AnimationDef) -> nat {
    if a.frame_count <= i32::MAX { a.frame_count as nat } else { 0 }
}

pub open spec fn laid_out_total(animations: Seq<AnimationDef>) -> nat
    decreases animations.len(),
{
    if animations.len() == 0 {
        0
    } else {
        laid_out_total(animations.drop_last()) + frames_laid_out(animations.last())
    }
}

/// What the plan of a sheet is: `columns` is the frames of all animations,
/// `rows` the directions; each row lists, for every animation in turn, its
/// frames, each at column (animation's start column + frame) and at pixel
/// position (column × tile width, row × tile height), with the image that
/// `sheet_source` gives for it.
pub open spec fn plan_describes(
    plan: SheetPlan,
    sprites: Seq<Sprite>,
    directions: Seq<String>,
    animations: Seq<AnimationDef>,
    tile_width: u32,
    tile_height: u32,
) -> bool {
    &&& plan.columns == frame_total(animations)
    &&& plan.rows == directions.len()
    &&& plan.width == tile_width * frame_total(animations)
    &&& plan.height == tile_height * directions.len()
    &&& plan.cells@.len() == directions.len()
    &&& forall|r: int| 0 <= r < directions.len() ==> (#[trigger] plan.cells@[r])@.len() == laid_out_total(animations)
    &&& forall|r: int, j: int, f: int|
        0 <= r < directions.len() && 0 <= j < animations.len() && 0 <= f < frames_laid_out(animations[j]) ==> {
            let cell = #[trigger] plan.cells@[r]@[laid_out_total(animations.take(j)) + f];
            &&& cell.direction@ == directions[r]@
            &&& cell.animation@ == animations[j].name@
            &&& cell.frame_index == f
            &&& cell.col == start_column(animations, j) + f
            &&& cell.x == cell.col * tile_width
            &&& cell.y == r * tile_height
            &&& match cell.source {
                Some(p) => sheet_source(sprites, directions[r]@, animations[j].name@, f) == Some(p@),
                None => sheet_source(sprites, directions[r]@, animations[j].name@, f) is None,
            }
        }
}

/// The final image of the last sheet-ready sprite with this key.
fn find_source(sprites: &[Sprite], direction: &Vec<char>, animation: &Vec<char>, frame: i32) -> (r: Option<String>)
    ensures
        match r {
            Some(p) => sheet_source(sprites@, direction@, animation@, frame as int) == Some(p@),
            None => sheet_source(sprites@, direction@, animation@, frame as int) is None,
        },
{
    let mut k: usize = sprites.len();
    proof {
        assert(sprites@.take(sprites.len() as int) =~= sprites@);
        reveal_strlit("finalized");
    }
    while k > 0
        invariant
            k <= sprites.len(),
            sheet_source(sprites@, direction@, animation@, frame as int)
                == sheet_source(sprites@.take(k as int), direction@, animation@, frame as int),
        decreases k,
    {
        let s = &sprites[k - 1];
        proof {
            assert(sprites@.take(k as int).last() == *s);
            assert(sprites@.take(k as int).drop_last() =~= sprites@.take(k - 1));
        }
        let ready = str_eq(s.status.as_str(), "finalized") && s.final_path.is_some();
        if ready && s.frame_index == frame {
            let sd = chars_of(s.direction.as_str());
            let sa = chars_of(s.animation.as_str());
            if chars_eq(&sd, direction) && chars_eq(&sa, animation) {
                match &s.final_path {
                    Some(p) => {
                        return Some(p.clone());
                    },
                    None => {},
                }
            }
        }
        k = k - 1;
    }
    None
}

proof fn lemma_laid_out_step(animations: Seq<AnimationDef>, j: int)
    requires
        0 <= j < animations.len(),
    ensures
        laid_out_total(animations.take(j + 1)) == laid_out_total(animations.take(j)) + frames_laid_out(animations[j]),
{
    assert(animations.take(j + 1).drop_last() =~= animations.take(j));
}

proof fn lemma_laid_out_prefix(animations: Seq<AnimationDef>, j: int)
    requires
        0 <= j <= animations.len(),
    ensures
        laid_out_total(animations.take(j)) <= laid_out_total(animations),
    decreases animations.len() - j,
{
    if j < animations.len() {
        lemma_laid_out_prefix(animations, j + 1);
        lemma_laid_out_step(animations, j);
    } else {
        assert(animations.take(j) =~= animations);
    }
}

proof fn lemma_mul_le(a: nat, b: nat, c: nat)
    requires
        a <= b,
    ensures
        a * c <= b * c,
{
    assert(a * c <= b * c) by (nonlinear_arith)
        requires a <= b;
}

/// Lays out the sheet of a character: the sprites that are finalized and have
/// a final image fill their cells; the path is
/// `{base_path}/{character}/spritesheet/{character}.png`.
pub fn plan_spritesheet(
    sprites: &[Sprite],
    directions: &[String],
    animations: &[AnimationDef],
    tile_width: u32,
    tile_height: u32,
    base_path: &str,
    character_name: &str,
) -> (plan: SheetPlan)
    requires
        frame_total(animations@) <= u32::MAX,
        tile_width * frame_total(animations@) <= u32::MAX,
        directions@.len() <= u32::MAX,
        tile_height * directions@.len() <= u32::MAX,
    ensures
        plan_describes(plan, sprites@, directions@, animations@, tile_width, tile_height),
        plan.path@ == join_path(join_path(join_path(base_path@, character_name@), "spritesheet"@),
            character_name@ + ".png"@),
{
    let mut columns: u32 = 0;
    let mut j: usize = 0;
    proof {
        assert(animations@.take(0) =~= Seq::<AnimationDef>::empty());
    }
    while j < animations.len()
        invariant
            j <= animations.len(),
            frame_total(animations@) <= u32::MAX,
            columns == frame_total(animations@.take(j as int)),
        decreases animations.len() - j,
    {
        proof {
            lemma_frame_total_step(animations@, j as int);
            lemma_frame_total_prefix(animations@, j + 1);
        }
        columns = columns + animations[j].frame_count;
        j = j + 1;
    }
    proof {
        assert(animations@.take(animations.len() as int) =~= animations@);
    }
    let rows = directions.len() as u32;
    let width = tile_width * columns;
    let height = tile_height * rows;

    let mut cells: Vec<Vec<SheetCell>> = Vec::new();
    let mut r: usize = 0;
    while r < directions.len()
        invariant
            r <= directions.len(),
            directions@.len() <= u32::MAX,
            tile_height * directions@.len() <= u32::MAX,
            frame_total(animations@) <= u32::MAX,
            tile_width * frame_total(animations@) <= u32::MAX,
            cells@.len() == r,
            forall|q: int| 0 <= q < r ==> (#[trigger] cells@[q])@.len() == laid_out_total(animations@),
            forall|q: int, jj: int, f: int|
                0 <= q < r && 0 <= jj < animations@.len() && 0 <= f < frames_laid_out(animations@[jj]) ==> {
                    let cell = #[trigger] cells@[q]@[laid_out_total(animations@.take(jj)) + f];
                    &&& cell.direction@ == directions@[q]@
                    &&& cell.animation@ == animations@[jj].name@
                    &&& cell.frame_index == f
                    &&& cell.col == start_column(animations@, jj) + f
                    &&& cell.x == cell.col * tile_width
                    &&& cell.y == q * tile_height
                    &&& match cell.source {
                        Some(p) => sheet_source(sprites@, directions@[q]@, animations@[jj].name@, f) == Some(p@),
                        None => sheet_source(sprites@, directions@[q]@, animations@[jj].name@, f) is None,
                    }
                },
        decreases directions.len() - r,
    {
        let direction = &directions[r];
        let dir_chars = chars_of(direction.as_str());
        proof {
            lemma_mul_le(r as nat, directions@.len() as nat, tile_height as nat);
            assert(r * tile_height == tile_height * r) by (nonlinear_arith);
            assert(tile_height * directions@.len() == directions@.len() * tile_height) by (nonlinear_arith);
        }
        let y = (r as u32) * tile_height;
        let mut row: Vec<SheetCell> = Vec::new();
        let mut col_offset: u32 = 0;
        let mut jj: usize = 0;
        proof {
            assert(animations@.take(0) =~= Seq::<AnimationDef>::empty());
        }
        while jj < animations.len()
            invariant
                jj <= animations.len(),
                frame_total(animations@) <= u32::MAX,
                tile_width * frame_total(animations@) <= u32::MAX,
                dir_chars@ == directions@[r as int]@,
                *direction == directions@[r as int],
                r < directions@.len(),
                y == r * tile_height,
                col_offset == frame_total(animations@.take(jj as int)),
                row@.len() == laid_out_total(animations@.take(jj as int)),
                forall|j2: int, f: int|
                    0 <= j2 < jj && 0 <= f < frames_laid_out(animations@[j2]) ==> {
                        let cell = #[trigger] row@[laid_out_total(animations@.take(j2)) + f];
                        &&& cell.direction@ == directions@[r as int]@
                        &&& cell.animation@ == animations@[j2].name@
                        &&& cell.frame_index == f
                        &&& cell.col == start_column(animations@, j2) + f
                        &&& cell.x == cell.col * tile_width
                        &&& cell.y == r * tile_height
                        &&& match cell.source {
                            Some(p) => sheet_source(sprites@, directions@[r as int]@, animations@[j2].name@, f) == Some(p@),
                            None => sheet_source(sprites@, directions@[r as int]@, animations@[j2].name@, f) is None,
                        }
                    },
            decreases animations.len() - jj,
        {
            let anim = &animations[jj];
            let anim_chars = chars_of(anim.name.as_str());
            proof {
                lemma_frame_total_step(animations@, jj as int);
                lemma_frame_total_prefix(animations@, jj + 1);
                lemma_laid_out_step(animations@, jj as int);
            }
            let frames: i32 = if anim.frame_count <= 0x7fff_ffff { anim.frame_count as i32 } else { 0 };
            let ghost row_start = row@.len();
            let mut f: i32 = 0;
            while f < frames
                invariant
                    0 <= f <= frames,
                    frames == frames_laid_out(animations@[jj as int]),
                    *anim == animations@[jj as int],
                    jj < animations@.len(),
                    anim_chars@ == animations@[jj as int].name@,
                    dir_chars@ == directions@[r as int]@,
                    *direction == directions@[r as int],
                    frame_total(animations@.take(jj + 1)) <= frame_total(animations@),
                    frame_total(animations@) <= u32::MAX,
                    tile_width * frame_total(animations@) <= u32::MAX,
                    frame_total(animations@.take(jj + 1)) == col_offset + animations@[jj as int].frame_count,
                    col_offset == frame_total(animations@.take(jj as int)),
                    y == r * tile_height,
                    row_start == laid_out_total(animations@.take(jj as int)),
                    row@.len() == row_start + f,
                    forall|j2: int, f2: int|
                        0 <= j2 < jj && 0 <= f2 < frames_laid_out(animations@[j2]) ==> {
                            let cell = #[trigger] row@[laid_out_total(animations@.take(j2)) + f2];
                            &&& cell.direction@ == directions@[r as int]@
                            &&& cell.animation@ == animations@[j2].name@
                            &&& cell.frame_index == f2
                            &&& cell.col == start_column(animations@, j2) + f2
                            &&& cell.x == cell.col * tile_width
                            &&& cell.y == r * tile_height
                            &&& match cell.source {
                                Some(p) => sheet_source(sprites@, directions@[r as int]@, animations@[j2].name@, f2) == Some(p@),
                                None => sheet_source(sprites@, directions@[r as int]@, animations@[j2].name@, f2) is None,
                            }
                        },
                    forall|f2: int| 0 <= f2 < f ==> {
                        let cell = #[trigger] row@[row_start + f2];
                        &&& cell.direction@ == directions@[r as int]@
                        &&& cell.animation@ == animations@[jj as int].name@
                        &&& cell.frame_index == f2
                        &&& cell.col == start_column(animations@, jj as int) + f2
                        &&& cell.x == cell.col * tile_width
                        &&& cell.y == r * tile_height
                        &&& match cell.source {
                            Some(p) => sheet_source(sprites@, directions@[r as int]@, animations@[jj as int].name@, f2) == Some(p@),
                            None => sheet_source(sprites@, directions@[r as int]@, animations@[jj as int].name@, f2) is None,
                        }
                    },
                decreases frames - f,
            {
                let col = col_offset + (f as u32);
                proof {
                    lemma_mul_le(col as nat, frame_total(animations@), tile_width as nat);
                    assert(tile_width * frame_total(animations@) == frame_total(animations@) * tile_width) by (nonlinear_arith);
                }
                let x = col * tile_width;
                let source = find_source(sprites, &dir_chars, &anim_chars, f);
                let ghost before = row@;
                row.push(SheetCell {
                    direction: direction.clone(),
                    animation: anim.name.clone(),
                    frame_index: f,
                    col,
                    x,
                    y,
                    source,
                });
                proof {
                    assert forall|j2: int, f2: int|
                        0 <= j2 < jj && 0 <= f2 < frames_laid_out(animations@[j2]) implies
                        #[trigger] row@[laid_out_total(animations@.take(j2)) + f2]
                            == before[laid_out_total(animations@.take(j2)) + f2] by {
                        lemma_laid_out_step(animations@, j2);
                        lemma_laid_out_prefix(animations@.take(jj as int), j2 + 1);
                        assert(animations@.take(jj as int).take(j2 + 1) =~= animations@.take(j2 + 1));
                    }
                    assert forall|f2: int| 0 <= f2 < f + 1 implies {
                        let cell = #[trigger] row@[row_start + f2];
                        &&& cell.direction@ == directions@[r as int]@
                        &&& cell.animation@ == animations@[jj as int].name@
                        &&& cell.frame_index == f2
                        &&& cell.col == start_column(animations@, jj as int) + f2
                        &&& cell.x == cell.col * tile_width
                        &&& cell.y == r * tile_height
                        &&& match cell.source {
                            Some(p) => sheet_source(sprites@, directions@[r as int]@, animations@[jj as int].name@, f2) == Some(p@),
                            None => sheet_source(sprites@, directions@[r as int]@, animations@[jj as int].name@, f2) is None,
                        }
                    } by {
                        if f2 < f {
                            assert(row@[row_start + f2] == before[row_start + f2]);
                        } else {
                            let cell = row@[row_start + f2];
                            assert(cell.direction@ == directions@[r as int]@);
                            assert(cell.animation@ == animations@[jj as int].name@);
                            assert(cell.frame_index == f2);
                            assert(cell.col == start_column(animations@, jj as int) + f2);
                            assert(cell.x == cell.col * tile_width);
                            assert(cell.y == r * tile_height);
                        }
                    }
                }
                f = f + 1;
            }
            proof {
                assert forall|j2: int, f2: int|
                    0 <= j2 < jj + 1 && 0 <= f2 < frames_laid_out(animations@[j2]) implies {
                        let cell = #[trigger] row@[laid_out_total(animations@.take(j2)) + f2];
                        &&& cell.direction@ == directions@[r as int]@
                        &&& cell.animation@ == animations@[j2].name@
                        &&& cell.frame_index == f2
                        &&& cell.col == start_column(animations@, j2) + f2
                        &&& cell.x == cell.col * tile_width
                        &&& cell.y == r * tile_height
                        &&& match cell.source {
                            Some(p) => sheet_source(sprites@, directions@[r as int]@, animations@[j2].name@, f2) == Some(p@),
                            None => sheet_source(sprites@, directions@[r as int]@, animations@[j2].name@, f2) is None,
                        }
                    } by {
                    if j2 == jj {
                        assert(row@[row_start + f2] == row@[laid_out_total(animations@.take(j2)) + f2]);
                    }
                }
            }
            col_offset = col_offset + anim.frame_count;
            jj = jj + 1;
        }
        proof {
            assert(animations@.take(animations.len() as int) =~= animations@);
        }
        let ghost before = cells@;
        cells.push(row);
        proof {
            assert forall|q: int| 0 <= q < r + 1 implies (#[trigger] cells@[q])@.len() == laid_out_total(animations@) by {
                if q < r {
                    assert(cells@[q] == before[q]);
                }
            }
        }
        r = r + 1;
    }
    let char_dir = join(base_path, character_name);
    let sheet_dir = join(char_dir.as_str(), "spritesheet");
    let mut file_name = character_name.to_owned();
    file_name.append(".png");
    let path = join(sheet_dir.as_str(), file_name.as_str());
    SheetPlan { width, height, columns, rows, cells, path }
}

/// The sheet's layout and the Bevy metadata agree: the cell of direction `r`,
/// animation `j`, frame `f` lies on the metadata's row for that direction and
/// at the metadata's start column of that animation plus `f`, and both count
/// the same columns and rows.
pub proof fn lemma_sheet_matches_meta(
    plan: SheetPlan,
    meta: crate::commands::bevy_export::SpritesheetMeta,
    sprites: Seq<Sprite>,
    character_name: Seq<char>,
    directions: Seq<String>,
    animations: Seq<AnimationDef>,
    tile_width: u32,
    tile_height: u32,
    r: int,
    j: int,
    f: int,
)
    requires
        plan_describes(plan, sprites, directions, animations, tile_width, tile_height),
        meta_describes(meta, character_name, tile_width, tile_height, directions, animations),
        0 <= r < directions.len(),
        0 <= j < animations.len(),
        0 <= f < frames_laid_out(animations[j]),
    ensures
        plan.columns == meta.spritesheet.columns,
        plan.rows == meta.spritesheet.rows,
        plan.cells@[r]@[laid_out_total(animations.take(j)) + f].col == meta.animations@[j].start_col + f,
        plan.cells@[r]@[laid_out_total(animations.take(j)) + f].y == meta.directions@[r].row * tile_height,
        plan.cells@[r]@[laid_out_total(animations.take(j)) + f].direction@ == meta.directions@[r].name@,
        plan.cells@[r]@[laid_out_total(animations.take(j)) + f].animation@ == meta.animations@[j].name@,
{
    let cell = plan.cells@[r]@[laid_out_total(animations.take(j)) + f];
    assert(cell.col == start_column(animations, j) + f);
    assert(meta.animations@[j].start_col == start_column(animations, j));
    assert(meta.directions@[r].row == r as u32);
}

/// The law of cells: a cell is filled only by a finalized sprite with a
/// final image whose direction, animation and frame are the cell's, and
/// such a sprite always fills it: the last one listed, if several.
pub proof fn lemma_sheet_source_matches_key(sprites: Seq<Sprite>, direction: Seq<char>, animation: Seq<char>, frame: int)
    ensures
        sheet_source(sprites, direction, animation, frame) matches Some(p) ==> exists|k: int|
            0 <= k < sprites.len() && (#[trigger] sprites[k]).status@ == "finalized"@ && sprites[k].direction@
                == direction && sprites[k].animation@ == animation && sprites[k].frame_index as int == frame
                && sprites[k].final_path is Some && sprites[k].final_path->0@ == p
                && forall|j: int| k < j < sprites.len() ==> !(#[trigger] sprites[j].status@ == "finalized"@
                    && sprites[j].direction@ == direction && sprites[j].animation@ == animation
                    && sprites[j].frame_index as int == frame && sprites[j].final_path is Some),
        (exists|k: int|
            0 <= k < sprites.len() && (#[trigger] sprites[k]).status@ == "finalized"@ && sprites[k].direction@
                == direction && sprites[k].animation@ == animation && sprites[k].frame_index as int == frame
                && sprites[k].final_path is Some) ==> sheet_source(sprites, direction, animation, frame) is Some,
    decreases sprites.len(),
{
    if sprites.len() > 0 {
        let rest = sprites.drop_last();
        lemma_sheet_source_matches_key(rest, direction, animation, frame);
        let n = sprites.len() - 1;
        if let Some(p) = sheet_source(sprites, direction, animation, frame) {
            let last = sprites[n];
            if is_sheet_ready(last) && last.direction@ == direction && last.animation@ == animation
                && last.frame_index as int == frame {
                assert(sprites[n].final_path is Some && sprites[n].final_path->0@ == p);
            } else {
                let k = choose|k: int|
                    0 <= k < rest.len() && (#[trigger] rest[k]).status@ == "finalized"@ && rest[k].direction@
                        == direction && rest[k].animation@ == animation && rest[k].frame_index as int == frame
                        && rest[k].final_path is Some && rest[k].final_path->0@ == p
                && forall|j: int| k < j < rest.len() ==> !(#[trigger] rest[j].status@ == "finalized"@
                    && rest[j].direction@ == direction && rest[j].animation@ == animation
                    && rest[j].frame_index as int == frame && rest[j].final_path is Some);
                assert(sprites[k] == rest[k]);
                assert forall|j: int| k < j < sprites.len() implies !(#[trigger] sprites[j].status@ == "finalized"@
                    && sprites[j].direction@ == direction && sprites[j].animation@ == animation
                    && sprites[j].frame_index as int == frame && sprites[j].final_path is Some) by {
                    if j < n {
                        assert(sprites[j] == rest[j]);
                    }
                }
            }
        }
        if exists|k: int|
            0 <= k < sprites.len() && (#[trigger] sprites[k]).status@ == "finalized"@ && sprites[k].direction@
                == direction && sprites[k].animation@ == animation && sprites[k].frame_index as int == frame
                && sprites[k].final_path is Some {
            let k = choose|k: int|
                0 <= k < sprites.len() && (#[trigger] sprites[k]).status@ == "finalized"@ && sprites[k].direction@
                    == direction && sprites[k].animation@ == animation && sprites[k].frame_index as int == frame
                    && sprites[k].final_path is Some;
            if k < n {
                assert(rest[k] == sprites[k]);
            }
        }
    }
}

} // verus!
