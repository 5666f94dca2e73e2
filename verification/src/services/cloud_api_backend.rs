//! Generation through a cloud service: the prompts it is sent, the files
//! its images are saved as, the seeds of animation frames, and what each
//! step reports.
use vstd::prelude::*;
use crate::services::generation_backend::{ratio, stage_name, GenerationProgress, GenerationStage};
use crate::text::{decimal, padded_u64_text, u64_text, zero_padded};

verus! {

fn concat3(a: &str, b: &str, c: &str) -> (r: String)
    ensures
        r@ == a@ + b@ + c@,
{
    let mut r = a.to_owned();
    r.append(b);
    r.append(c);
    r
}

/// The prompt of concept art: the user's prompt with the style appended.
pub fn concept_art_prompt(positive_prompt: &str) -> (s: String)
    ensures
        s@ == positive_prompt@ + ", concept art, detailed illustration, high quality, character design"@,
{
    let mut s = positive_prompt.to_owned();
    s.append(", concept art, detailed illustration, high quality, character design");
    s
}

/// The negative prompt of concept art: the user's, keeping pixel art out.
pub fn concept_art_negative_prompt(negative_prompt: &str) -> (s: String)
    ensures
        s@ == negative_prompt@ + ", pixel art, pixelated, low resolution"@,
{
    let mut s = negative_prompt.to_owned();
    s.append(", pixel art, pixelated, low resolution");
    s
}

/// The prompt of a pixel-art conversion.
pub fn pixel_art_prompt(positive_prompt: &str) -> (s: String)
    ensures
        s@ == positive_prompt@ + ", pixel art style, game character sprite, clean pixels, retro game"@,
{
    let mut s = positive_prompt.to_owned();
    s.append(", pixel art style, game character sprite, clean pixels, retro game");
    s
}

/// The prompt of one direction.
pub fn direction_prompt(direction: &str) -> (s: String)
    ensures
        s@ == "pixel art character facing "@ + direction@ + ", game sprite"@,
{
    concat3("pixel art character facing ", direction, ", game sprite")
}

/// The prompt of one animation frame.
pub fn frame_prompt(animation_name: &str, frame: u32, direction: &str) -> (s: String)
    ensures
        s@ == "pixel art character "@ + animation_name@ + " animation frame "@ + decimal(frame as nat) + ", facing "@
            + direction@ + ", game sprite"@,
{
    let mut s = concat3("pixel art character ", animation_name, " animation frame ");
    let f = u64_text(frame as u64);
    s.append(f.as_str());
    s.append(", facing ");
    s.append(direction);
    s.append(", game sprite");
    s
}

/// The seed of frame `frame`: the given seed plus the frame number, or
/// none when no seed is given.
pub fn frame_seed(seed: Option<i64>, frame: u32) -> (r: Option<i64>)
    requires
        seed matches Some(s) ==> s + frame <= i64::MAX,
    ensures
        r == match seed {
            Some(s) => Some((s + frame) as i64),
            None => None,
        },
{
    match seed {
        Some(s) => Some(s + frame as i64),
        None => None,
    }
}

/// `{prefix}_{index}.png`: the file of one image of a concept, concept
/// art or pixel-art step.
pub fn indexed_file_name(prefix: &str, index: u32) -> (s: String)
    ensures
        s@ == prefix@ + "_"@ + decimal(index as nat) + ".png"@,
{
    let i = u64_text(index as u64);
    let mut s = concat3(prefix, "_", i.as_str());
    s.append(".png");
    s
}

/// `direction_{direction}.png`: the file of one direction.
pub fn cloud_direction_file_name(direction: &str) -> (s: String)
    ensures
        s@ == "direction_"@ + direction@ + ".png"@,
{
    concat3("direction_", direction, ".png")
}

/// `{direction}_{animation}_f{frame:02}.png`: the file of one frame.
pub fn cloud_frame_file_name(direction: &str, animation_name: &str, frame: u32) -> (s: String)
    ensures
        s@ == direction@ + "_"@ + animation_name@ + "_f"@ + zero_padded(decimal(frame as nat), 2) + ".png"@,
{
    let f = padded_u64_text(frame as u64, 2);
    let mut s = concat3(direction, "_", animation_name);
    s.append("_f");
    s.append(f.as_str());
    s.append(".png");
    s
}

// ------------------------------------------------------------------
// Progress
// ------------------------------------------------------------------

/// What a cloud step reports as it starts.
pub open spec fn cloud_start_message(stage: GenerationStage, direction: Seq<char>, animation: Seq<char>) -> Seq<char> {
    match stage {
        GenerationStage::Concept => "クラウドAPIでコンセプトを生成中..."@,
        GenerationStage::ConceptArt => "クラウドAPIでコンセプトアートを生成中..."@,
        GenerationStage::PixelArtConversion => "クラウドAPIでピクセルアート変換中..."@,
        GenerationStage::Direction => "方向展開を開始..."@,
        GenerationStage::Animation => direction + " "@ + animation + " のフレーム生成開始"@,
    }
}

/// What a cloud step reports when item `current` of `total` is done.
pub open spec fn cloud_item_message(stage: GenerationStage, current: nat, total: nat, direction: Seq<char>) -> Seq<char> {
    match stage {
        GenerationStage::Concept => "コンセプト "@ + ratio(current, total) + " 完了"@,
        GenerationStage::ConceptArt => "コンセプトアート "@ + ratio(current, total) + " 完了"@,
        GenerationStage::PixelArtConversion => "ピクセルアート変換 "@ + ratio(current, total) + " 完了"@,
        GenerationStage::Direction => direction + " 方向完了 ("@ + ratio(current, total) + ")"@,
        GenerationStage::Animation => "フレーム "@ + ratio(current, total) + " 完了"@,
    }
}

/// What a cloud step reports when done.
pub open spec fn cloud_done_message(stage: GenerationStage, direction: Seq<char>, animation: Seq<char>) -> Seq<char> {
    match stage {
        GenerationStage::Concept => "コンセプト生成完了"@,
        GenerationStage::ConceptArt => "コンセプトアート生成完了"@,
        GenerationStage::PixelArtConversion => "ピクセルアート変換完了"@,
        GenerationStage::Direction => "方向展開完了"@,
        GenerationStage::Animation => direction + " "@ + animation + " のアニメーション生成完了"@,
    }
}

fn ratio_text(a: u64, b: u64) -> (s: String)
    ensures
        s@ == ratio(a as nat, b as nat),
{
    let mut s = u64_text(a);
    s.append("/");
    let t = u64_text(b);
    s.append(t.as_str());
    s
}

fn progress(stage: GenerationStage, current: u32, total: u32, status: &str, message: String) -> (p: GenerationProgress)
    ensures
        p.stage@ == stage_name(stage),
        p.current == current,
        p.total == total,
        p.status@ == status@,
        p.message == message,
{
    GenerationProgress { stage: stage.name().to_owned(), current, total, status: status.to_owned(), message }
}

/// The report as a cloud step starts: nothing done yet.
pub fn cloud_start_progress(stage: GenerationStage, total: u32, direction: &str, animation: &str) -> (p: GenerationProgress)
    ensures
        p.stage@ == stage_name(stage),
        p.current == 0,
        p.total == total,
        p.status@ == "processing"@,
        p.message@ == cloud_start_message(stage, direction@, animation@),
{
    let message = match stage {
        GenerationStage::Concept => "クラウドAPIでコンセプトを生成中...".to_owned(),
        GenerationStage::ConceptArt => "クラウドAPIでコンセプトアートを生成中...".to_owned(),
        GenerationStage::PixelArtConversion => "クラウドAPIでピクセルアート変換中...".to_owned(),
        GenerationStage::Direction => "方向展開を開始...".to_owned(),
        GenerationStage::Animation => {
            let mut m = concat3(direction, " ", animation);
            m.append(" のフレーム生成開始");
            m
        },
    };
    progress(stage, 0, total, "processing", message)
}

/// The report when item `current` of a cloud step is done.
pub fn cloud_item_progress(stage: GenerationStage, current: u32, total: u32, direction: &str) -> (p: GenerationProgress)
    ensures
        p.stage@ == stage_name(stage),
        p.current == current,
        p.total == total,
        p.status@ == "processing"@,
        p.message@ == cloud_item_message(stage, current as nat, total as nat, direction@),
{
    let r = ratio_text(current as u64, total as u64);
    let message = match stage {
        GenerationStage::Concept => concat3("コンセプト ", r.as_str(), " 完了"),
        GenerationStage::ConceptArt => concat3("コンセプトアート ", r.as_str(), " 完了"),
        GenerationStage::PixelArtConversion => concat3("ピクセルアート変換 ", r.as_str(), " 完了"),
        GenerationStage::Direction => {
            let mut m = concat3(direction, " 方向完了 (", r.as_str());
            m.append(")");
            m
        },
        GenerationStage::Animation => concat3("フレーム ", r.as_str(), " 完了"),
    };
    progress(stage, current, total, "processing", message)
}

/// The report when a cloud step is done.
pub fn cloud_done_progress(stage: GenerationStage, total: u32, direction: &str, animation: &str) -> (p: GenerationProgress)
    ensures
        p.stage@ == stage_name(stage),
        p.current == total,
        p.total == total,
        p.status@ == "completed"@,
        p.message@ == cloud_done_message(stage, direction@, animation@),
{
    let message = match stage {
        GenerationStage::Concept => "コンセプト生成完了".to_owned(),
        GenerationStage::ConceptArt => "コンセプトアート生成完了".to_owned(),
        GenerationStage::PixelArtConversion => "ピクセルアート変換完了".to_owned(),
        GenerationStage::Direction => "方向展開完了".to_owned(),
        GenerationStage::Animation => {
            let mut m = concat3(direction, " ", animation);
            m.append(" のアニメーション生成完了");
            m
        },
    };
    progress(stage, total, total, "completed", message)
}

} // verus!
