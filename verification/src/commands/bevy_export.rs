//! Metadata for Bevy: how a character's spritesheet is laid out.
use vstd::prelude::*;
use crate::error::{message_with, AppError};
use crate::models::project::{frame_total, lemma_frame_total_prefix, lemma_frame_total_step, AnimationDef};
use crate::posix_path::{join, join_path};
use crate::services::path_utils::{sanitize_filename, has_ascii_alnum, sanitized};
use crate::text::is_blank;

verus! {

/// The root of the metadata written next to a spritesheet for Bevy.
#[derive(Debug)]
pub struct SpritesheetMeta {
    /// The version of the metadata format.
    pub version: String,
    /// The character's name.
    pub character: String,
    /// The dimensions of the sheet.
    pub spritesheet: SpritesheetInfo,
    /// Which row each direction occupies.
    pub directions: Vec<DirectionMeta>,
    /// Where each animation's frames start.
    pub animations: Vec<AnimationMeta>,
}

/// The dimensions of a spritesheet.
#[derive(Debug)]
pub struct SpritesheetInfo {
    pub columns: u32,
    pub rows: u32,
    pub tile_width: u32,
    pub tile_height: u32,
}

/// A direction and the row of the sheet that holds it.
#[derive(Debug)]
pub struct DirectionMeta {
    pub name: String,
    pub row: u32,
}

/// An animation and the columns of the sheet that hold it.
#[derive(Debug)]
pub struct AnimationMeta {
    pub name: String,
    pub start_col: u32,
    pub frame_count: u32,
    pub frame_duration_ms: u32,
}

/// The column at which animation `i` starts: the frames of all animations
/// before it.
pub open spec fn start_column(animations: Seq<AnimationDef>, i: int) -> nat {
    frame_total(animations.take(i))
}

/// What `SpritesheetMeta::new` builds: version "1.0"; one column per frame
/// of all animations and one row per direction; direction `i` on row `i`;
/// animation `i` starting after the frames of the animations before it.
pub open spec fn meta_describes(
    meta: SpritesheetMeta,
    character_name: Seq<char>,
    tile_width: u32,
    tile_height: u32,
    directions: Seq<String>,
    animations: Seq<AnimationDef>,
) -> bool {
    &&& meta.version@ == "1.0"@
    &&& meta.character@ == character_name
    &&& meta.spritesheet.columns == frame_total(animations)
    &&& meta.spritesheet.rows == directions.len() as u32
    &&& meta.spritesheet.tile_width == tile_width
    &&& meta.spritesheet.tile_height == tile_height
    &&& meta.directions@.len() == directions.len()
    &&& forall|i: int| 0 <= i < directions.len() ==> {
        &&& (#[trigger] meta.directions@[i]).name@ == directions[i]@
        &&& meta.directions@[i].row == i as u32
    }
    &&& meta.animations@.len() == animations.len()
    &&& forall|i: int| 0 <= i < animations.len() ==> {
        &&& (#[trigger] meta.animations@[i]).name@ == animations[i].name@
        &&& meta.animations@[i].start_col == start_column(animations, i)
        &&& meta.animations@[i].frame_count == animations[i].frame_count
        &&& meta.animations@[i].frame_duration_ms == animations[i].frame_duration_ms
    }
}

impl SpritesheetMeta {
    /// Builds the metadata from a project's settings: rows follow the
    /// directions, columns follow the animations one after another.
    pub fn new(
        character_name: &str,
        tile_width: u32,
        tile_height: u32,
        directions: &[String],
        animations: &[AnimationDef],
    ) -> (meta: Self)
        requires
            frame_total(animations@) <= u32::MAX,
        ensures
            meta_describes(meta, character_name@, tile_width, tile_height, directions@, animations@),
    {
        let mut direction_metas: Vec<DirectionMeta> = Vec::new();
        let mut i: usize = 0;
        while i < directions.len()
            invariant
                i <= directions.len(),
                direction_metas@.len() == i,
                forall|k: int| 0 <= k < i ==> {
                    &&& (#[trigger] direction_metas@[k]).name@ == directions@[k]@
                    &&& direction_metas@[k].row == k as u32
                },
            decreases directions.len() - i,
        {
            direction_metas.push(DirectionMeta { name: directions[i].clone(), row: i as u32 });
            i = i + 1;
        }

        let mut animation_metas: Vec<AnimationMeta> = Vec::new();
        let mut start_col: u32 = 0;
        let mut j: usize = 0;
        proof {
            assert(animations@.take(0) =~= Seq::<AnimationDef>::empty());
        }
        while j < animations.len()
            invariant
                j <= animations.len(),
                frame_total(animations@) <= u32::MAX,
                start_col == frame_total(animations@.take(j as int)),
                animation_metas@.len() == j,
                forall|k: int| 0 <= k < j ==> {
                    &&& (#[trigger] animation_metas@[k]).name@ == animations@[k].name@
                    &&& animation_metas@[k].start_col == start_column(animations@, k)
                    &&& animation_metas@[k].frame_count == animations@[k].frame_count
                    &&& animation_metas@[k].frame_duration_ms == animations@[k].frame_duration_ms
                },
            decreases animations.len() - j,
        {
            let anim = &animations[j];
            proof {
                lemma_frame_total_step(animations@, j as int);
                lemma_frame_total_prefix(animations@, j + 1);
            }
            animation_metas.push(AnimationMeta {
                name: anim.name.clone(),
                start_col: start_col,
                frame_count: anim.frame_count,
                frame_duration_ms: anim.frame_duration_ms,
            });
            start_col = start_col + anim.frame_count;
            j = j + 1;
        }
        proof {
            assert(animations@.take(animations.len() as int) =~= animations@);
        }
        SpritesheetMeta {
            version: "1.0".to_owned(),
            character: character_name.to_owned(),
            spritesheet: SpritesheetInfo {
                columns: start_col,
                rows: directions.len() as u32,
                tile_width,
                tile_height,
            },
            directions: direction_metas,
            animations: animation_metas,
        }
    }
}

/// Animation `i + 1` starts where animation `i` ends, and the last
/// animation ends at the last column of the sheet.
pub proof fn lemma_animation_columns_adjacent(
    meta: SpritesheetMeta,
    character_name: Seq<char>,
    tile_width: u32,
    tile_height: u32,
    directions: Seq<String>,
    animations: Seq<AnimationDef>,
)
    requires
        meta_describes(meta, character_name, tile_width, tile_height, directions, animations),
    ensures
        forall|i: int| 0 <= i < animations.len() - 1 ==>
            #[trigger] meta.animations@[i + 1].start_col == meta.animations@[i].start_col
                + meta.animations@[i].frame_count,
        animations.len() > 0 ==> meta.animations@[animations.len() - 1].start_col
            + meta.animations@[animations.len() - 1].frame_count == meta.spritesheet.columns,
{
    assert forall|i: int| 0 <= i < animations.len() - 1 implies
        #[trigger] meta.animations@[i + 1].start_col == meta.animations@[i].start_col
            + meta.animations@[i].frame_count by {
        lemma_frame_total_step(animations, i);
        assert(meta.animations@[i].start_col == start_column(animations, i));
        assert(meta.animations@[i + 1].start_col == start_column(animations, i + 1));
    }
    if animations.len() > 0 {
        let n = animations.len() - 1;
        lemma_frame_total_step(animations, n);
        assert(meta.animations@[n].start_col == start_column(animations, n));
        assert(animations.take(n + 1) =~= animations);
    }
}

/// The result of exporting a character for Bevy.
#[derive(Debug)]
pub struct ExportResult {
    /// Where the spritesheet image was copied.
    pub png_path: String,
    /// Where the metadata was written.
    pub meta_path: String,
    /// The metadata that was written.
    pub meta: SpritesheetMeta,
}

/// Where an export writes its files.
#[derive(Debug)]
pub struct ExportTargets {
    /// The directory that receives the files: `{output_dir}/characters`.
    pub output_base: String,
    /// `{output_base}/{safe name}.png`.
    pub png_path: String,
    /// `{output_base}/{safe name}.meta.json`.
    pub meta_path: String,
}

pub open spec fn sheet_missing_message(character_name: Seq<char>) -> Seq<char> {
    "スプライトシートが未生成です．先にスプライトシートを生成してください: "@ + character_name
}

pub open spec fn sheet_file_missing_message(path: Seq<char>) -> Seq<char> {
    "スプライトシートファイルが見つかりません: "@ + path
}

/// Decides where an export goes, or why it cannot happen. The sheet must
/// have been generated (`spritesheet_path`) and its file must exist
/// (`sheet_exists`, as the file system answered); the character's name must
/// have a safe form, which names both files in `{output_dir}/characters`.
pub fn plan_bevy_export(
    character_name: &str,
    spritesheet_path: &Option<String>,
    sheet_exists: bool,
    output_dir: &str,
) -> (r: Result<ExportTargets, AppError>)
    ensures
        spritesheet_path is None ==> (r matches Err(AppError::Export(m))
            && m@ == sheet_missing_message(character_name@)),
        spritesheet_path matches Some(p) ==> (!sheet_exists ==> (r matches Err(AppError::Export(m))
            && m@ == sheet_file_missing_message(p@))),
        spritesheet_path is Some && sheet_exists && (is_blank(character_name@)
            || !has_ascii_alnum(character_name@)) ==> r matches Err(AppError::Validation(_)),
        spritesheet_path is Some && sheet_exists && !is_blank(character_name@)
            && has_ascii_alnum(character_name@) ==> (r matches Ok(t) && {
            let base = join_path(output_dir@, "characters"@);
            &&& t.output_base@ == base
            &&& t.png_path@ == join_path(base, sanitized(character_name@) + ".png"@)
            &&& t.meta_path@ == join_path(base, sanitized(character_name@) + ".meta.json"@)
        }),
{
    let sheet = match spritesheet_path {
        Some(p) => p,
        None => {
            return Err(AppError::Export(message_with(
                "スプライトシートが未生成です．先にスプライトシートを生成してください: ",
                character_name,
            )));
        },
    };
    if !sheet_exists {
        return Err(AppError::Export(message_with(
            "スプライトシートファイルが見つかりません: ",
            sheet.as_str(),
        )));
    }
    let safe_name = sanitize_filename(character_name)?;
    let output_base = join(output_dir, "characters");
    let mut png_name = safe_name.clone();
    png_name.append(".png");
    let mut meta_name = safe_name.clone();
    meta_name.append(".meta.json");
    let png_path = join(output_base.as_str(), png_name.as_str());
    let meta_path = join(output_base.as_str(), meta_name.as_str());
    Ok(ExportTargets { output_base, png_path, meta_path })
}

} // verus!
