//! The decisions of AI character generation that do not depend on the
//! service doing it: what each step reports, which values fill a workflow,
//! where results are written, which frames are generated.
use vstd::prelude::*;
use crate::commands::comfyui::pairs_view;
use crate::ordering::{insert_position, insertion_sorted, total_preorder};
use crate::text::{
    clone_opt, decimal, i64_text, opt_view, padded_u64_text, signed_decimal, u64_text, zero_padded,
};

verus! {

/// A progress report of a generation step.
#[derive(Debug, Clone)]
pub struct GenerationProgress {
    /// `concept`, `concept_art`, `pixel_art_conversion`, `direction` or `animation`.
    pub stage: String,
    pub current: u32,
    pub total: u32,
    /// `processing`, `completed` or `error`.
    pub status: String,
    pub message: String,
}

/// An image that a generation step wrote.
#[derive(Debug, Clone)]
pub struct GeneratedImage {
    pub path: String,
    pub direction: Option<String>,
    pub animation: Option<String>,
    pub frame_index: Option<u32>,
}

/// The steps of generation.
#[derive(Debug, Clone, Copy, PartialEq, Eq, Structural)]
pub enum GenerationStage {
    Concept,
    ConceptArt,
    PixelArtConversion,
    Direction,
    Animation,
}

pub open spec fn stage_name(s: GenerationStage) -> Seq<char> {
    match s {
        GenerationStage::Concept => "concept"@,
        GenerationStage::ConceptArt => "concept_art"@,
        GenerationStage::PixelArtConversion => "pixel_art_conversion"@,
        GenerationStage::Direction => "direction"@,
        GenerationStage::Animation => "animation"@,
    }
}

impl GenerationStage {
    /// The name under which progress of the step is reported.
    pub fn name(&self) -> (s: &'static str)
        ensures
            s@ == stage_name(*self),
    {
        match self {
            GenerationStage::Concept => "concept",
            GenerationStage::ConceptArt => "concept_art",
            GenerationStage::PixelArtConversion => "pixel_art_conversion",
            GenerationStage::Direction => "direction",
            GenerationStage::Animation => "animation",
        }
    }
}

/// `a/b` in decimal.
pub open spec fn ratio(a: nat, b: nat) -> Seq<char> {
    decimal(a) + "/"@ + decimal(b)
}

fn ratio_text(a: u64, b: u64) -> (s: String)
    ensures
        s@ == ratio(a as nat, b as nat),
{
    let mut s = u64_text(a);
    s.append("/");
    let t = u64_text(b);
    s.append(t.as_str());
    s
}

fn concat3(a: &str, b: &str, c: &str) -> (r: String)
    ensures
        r@ == a@ + b@ + c@,
{
    let mut r = a.to_owned();
    r.append(b);
    r.append(c);
    r
}

/// What a workflow-based step reports while it makes item `current` of
/// `total`.
pub open spec fn step_message(stage: GenerationStage, current: nat, total: nat, direction: Seq<char>, animation: Seq<char>) -> Seq<char> {
    match stage {
        GenerationStage::Concept => "コンセプト画像 "@ + ratio(current, total) + " を生成中..."@,
        GenerationStage::ConceptArt => "コンセプトアート "@ + ratio(current, total) + " を生成中..."@,
        GenerationStage::PixelArtConversion => "ピクセルアート変換 "@ + ratio(current, total) + " を生成中..."@,
        GenerationStage::Direction => "方向 "@ + direction + " ("@ + ratio(current, total) + ") を生成中..."@,
        GenerationStage::Animation => direction + " "@ + animation + " フレーム "@ + ratio(current, total) + " を生成中..."@,
    }
}

/// What a workflow-based step reports when done, with how many of the
/// items succeeded.
pub open spec fn done_message(stage: GenerationStage, succeeded: nat, total: nat) -> Seq<char> {
    match stage {
        GenerationStage::Concept => "コンセプト生成完了: "@ + ratio(succeeded, total) + " 枚成功"@,
        GenerationStage::ConceptArt => "コンセプトアート生成完了: "@ + ratio(succeeded, total) + " 枚成功"@,
        GenerationStage::PixelArtConversion => "ピクセルアート変換完了: "@ + ratio(succeeded, total) + " 枚成功"@,
        GenerationStage::Direction => "方向展開完了: "@ + ratio(succeeded, total) + " 方向成功"@,
        GenerationStage::Animation => "アニメーション展開完了: "@ + ratio(succeeded, total) + " フレーム成功"@,
    }
}

/// The report before item `current` of `total` is made by a workflow.
/// `direction` and `animation` name what is generated, where the step has them.
pub fn step_progress(stage: GenerationStage, current: u32, total: u32, direction: &str, animation: &str) -> (p: GenerationProgress)
    ensures
        p.stage@ == stage_name(stage),
        p.current == current,
        p.total == total,
        p.status@ == "processing"@,
        p.message@ == step_message(stage, current as nat, total as nat, direction@, animation@),
{
    let r = ratio_text(current as u64, total as u64);
    let message = match stage {
        GenerationStage::Concept => concat3("コンセプト画像 ", r.as_str(), " を生成中..."),
        GenerationStage::ConceptArt => concat3("コンセプトアート ", r.as_str(), " を生成中..."),
        GenerationStage::PixelArtConversion => concat3("ピクセルアート変換 ", r.as_str(), " を生成中..."),
        GenerationStage::Direction => {
            let mut m = concat3("方向 ", direction, " (");
            m.append(r.as_str());
            m.append(") を生成中...");
            m
        },
        GenerationStage::Animation => {
            let mut m = concat3(direction, " ", animation);
            m.append(" フレーム ");
            m.append(r.as_str());
            m.append(" を生成中...");
            m
        },
    };
    GenerationProgress {
        stage: stage.name().to_owned(),
        current,
        total,
        status: "processing".to_owned(),
        message,
    }
}

/// The report when a workflow-based step has made all it could.
pub fn done_progress(stage: GenerationStage, succeeded: u64, total: u32) -> (p: GenerationProgress)
    ensures
        p.stage@ == stage_name(stage),
        p.current == total,
        p.total == total,
        p.status@ == "completed"@,
        p.message@ == done_message(stage, succeeded as nat, total as nat),
{
    let r = ratio_text(succeeded, total as u64);
    let message = match stage {
        GenerationStage::Concept => concat3("コンセプト生成完了: ", r.as_str(), " 枚成功"),
        GenerationStage::ConceptArt => concat3("コンセプトアート生成完了: ", r.as_str(), " 枚成功"),
        GenerationStage::PixelArtConversion => concat3("ピクセルアート変換完了: ", r.as_str(), " 枚成功"),
        GenerationStage::Direction => concat3("方向展開完了: ", r.as_str(), " 方向成功"),
        GenerationStage::Animation => concat3("アニメーション展開完了: ", r.as_str(), " フレーム成功"),
    };
    GenerationProgress {
        stage: stage.name().to_owned(),
        current: total,
        total,
        status: "completed".to_owned(),
        message,
    }
}

// ------------------------------------------------------------------
// Workflow values
// ------------------------------------------------------------------

/// The sampling steps when none are given.
pub const DEFAULT_STEPS: u32 = 30;

pub open spec fn default_checkpoint() -> Seq<char> {
    "sd_xl_base_1.0.safetensors"@
}

pub open spec fn default_lora() -> Seq<char> {
    "pixel-art-xl.safetensors"@
}

pub open spec fn or_default(o: Option<String>, d: Seq<char>) -> Seq<char> {
    match o {
        Some(s) => s@,
        None => d,
    }
}

pub open spec fn steps_or_default(steps: Option<u32>) -> nat {
    match steps {
        Some(s) => s as nat,
        None => DEFAULT_STEPS as nat,
    }
}

fn text_or(o: &Option<String>, d: &str) -> (s: String)
    ensures
        s@ == or_default(*o, d@),
{
    match o {
        Some(v) => v.clone(),
        None => d.to_owned(),
    }
}

fn pair(key: &str, value: &str) -> (p: (String, String))
    ensures
        p.0@ == key@,
        p.1@ == value@,
{
    (key.to_owned(), value.to_owned())
}

fn push_pair(v: &mut Vec<(String, String)>, key: &str, value: &str)
    ensures
        pairs_view(final(v)@) == pairs_view(old(v)@).push((key@, value@)),
{
    v.push(pair(key, value));
    proof {
        assert(pairs_view(final(v)@) =~= pairs_view(old(v)@).push((key@, value@)));
    }
}

/// The values common to every workflow: the seed, the steps (30 when
/// none are given), the guidance scale as written, and the checkpoint
/// (`sd_xl_base_1.0.safetensors` when none is given).
pub open spec fn sampling_pairs(seed: i64, steps: Option<u32>, cfg_scale: Seq<char>, checkpoint: Option<String>) -> Seq<(Seq<char>, Seq<char>)> {
    seq![
        ("seed"@, signed_decimal(seed as int)),
        ("steps"@, decimal(steps_or_default(steps))),
        ("cfg_scale"@, cfg_scale),
        ("checkpoint_name"@, or_default(checkpoint, default_checkpoint())),
    ]
}

fn push_sampling(v: &mut Vec<(String, String)>, seed: i64, steps: Option<u32>, cfg_scale: &str, checkpoint: &Option<String>)
    ensures
        pairs_view(final(v)@) == pairs_view(old(v)@) + sampling_pairs(seed, steps, cfg_scale@, *checkpoint),
{
    let seed_text = i64_text(seed);
    push_pair(v, "seed", seed_text.as_str());
    let steps_value: u32 = match steps {
        Some(s) => s,
        None => DEFAULT_STEPS,
    };
    let steps_text = u64_text(steps_value as u64);
    push_pair(v, "steps", steps_text.as_str());
    push_pair(v, "cfg_scale", cfg_scale);
    let ckpt = text_or(checkpoint, "sd_xl_base_1.0.safetensors");
    push_pair(v, "checkpoint_name", ckpt.as_str());
    proof {
        assert(pairs_view(final(v)@) =~= pairs_view(old(v)@) + sampling_pairs(seed, steps, cfg_scale@, *checkpoint));
    }
}

/// The LoRA of the concept and pixel-art workflows, with its strengths as
/// written (`pixel-art-xl.safetensors` when none is given).
pub open spec fn lora_pairs(lora: Option<String>, strength_model: Seq<char>, strength_clip: Seq<char>) -> Seq<(Seq<char>, Seq<char>)> {
    seq![
        ("lora_name"@, or_default(lora, default_lora())),
        ("lora_strength_model"@, strength_model),
        ("lora_strength_clip"@, strength_clip),
    ]
}

fn push_lora(v: &mut Vec<(String, String)>, lora: &Option<String>, strength_model: &str, strength_clip: &str)
    ensures
        pairs_view(final(v)@) == pairs_view(old(v)@) + lora_pairs(*lora, strength_model@, strength_clip@),
{
    let name = text_or(lora, "pixel-art-xl.safetensors");
    push_pair(v, "lora_name", name.as_str());
    push_pair(v, "lora_strength_model", strength_model);
    push_pair(v, "lora_strength_clip", strength_clip);
    proof {
        assert(pairs_view(final(v)@) =~= pairs_view(old(v)@) + lora_pairs(*lora, strength_model@, strength_clip@));
    }
}

/// The optional LoRA of the direction and animation workflows: only when
/// one is named, with its weight as written.
pub open spec fn optional_lora_pairs(lora: Option<String>, weight: Seq<char>) -> Seq<(Seq<char>, Seq<char>)> {
    match lora {
        Some(l) => seq![("lora_name"@, l@), ("lora_weight"@, weight)],
        None => Seq::empty(),
    }
}

fn push_optional_lora(v: &mut Vec<(String, String)>, lora: &Option<String>, weight: &str)
    ensures
        pairs_view(final(v)@) == pairs_view(old(v)@) + optional_lora_pairs(*lora, weight@),
{
    match lora {
        Some(l) => {
            push_pair(v, "lora_name", l.as_str());
            push_pair(v, "lora_weight", weight);
        },
        None => {},
    }
    proof {
        assert(pairs_view(final(v)@) =~= pairs_view(old(v)@) + optional_lora_pairs(*lora, weight@));
    }
}

/// The values of the concept workflow.
pub fn concept_replacements(
    positive_prompt: &str,
    negative_prompt: &str,
    seed: i64,
    steps: Option<u32>,
    cfg_scale: &str,
    checkpoint: &Option<String>,
    lora: &Option<String>,
    lora_strength_model: &str,
    lora_strength_clip: &str,
) -> (r: Vec<(String, String)>)
    ensures
        pairs_view(r@) == seq![("positive_prompt"@, positive_prompt@), ("negative_prompt"@, negative_prompt@)]
            + sampling_pairs(seed, steps, cfg_scale@, *checkpoint)
            + lora_pairs(*lora, lora_strength_model@, lora_strength_clip@),
{
    let mut r: Vec<(String, String)> = Vec::new();
    push_pair(&mut r, "positive_prompt", positive_prompt);
    push_pair(&mut r, "negative_prompt", negative_prompt);
    push_sampling(&mut r, seed, steps, cfg_scale, checkpoint);
    push_lora(&mut r, lora, lora_strength_model, lora_strength_clip);
    proof {
        assert(pairs_view(r@) =~= seq![("positive_prompt"@, positive_prompt@), ("negative_prompt"@, negative_prompt@)]
            + sampling_pairs(seed, steps, cfg_scale@, *checkpoint)
            + lora_pairs(*lora, lora_strength_model@, lora_strength_clip@));
    }
    r
}

/// The values of the concept-art workflow, which takes no LoRA.
pub fn concept_art_replacements(
    positive_prompt: &str,
    negative_prompt: &str,
    seed: i64,
    steps: Option<u32>,
    cfg_scale: &str,
    checkpoint: &Option<String>,
) -> (r: Vec<(String, String)>)
    ensures
        pairs_view(r@) == seq![("positive_prompt"@, positive_prompt@), ("negative_prompt"@, negative_prompt@)]
            + sampling_pairs(seed, steps, cfg_scale@, *checkpoint),
{
    let mut r: Vec<(String, String)> = Vec::new();
    push_pair(&mut r, "positive_prompt", positive_prompt);
    push_pair(&mut r, "negative_prompt", negative_prompt);
    push_sampling(&mut r, seed, steps, cfg_scale, checkpoint);
    proof {
        assert(pairs_view(r@) =~= seq![("positive_prompt"@, positive_prompt@), ("negative_prompt"@, negative_prompt@)]
            + sampling_pairs(seed, steps, cfg_scale@, *checkpoint));
    }
    r
}

/// The values of the pixel-art conversion workflow: the uploaded concept
/// art and the denoise strength as written, besides the concept's values.
pub fn pixel_art_replacements(
    positive_prompt: &str,
    negative_prompt: &str,
    input_image: &str,
    denoise_strength: &str,
    seed: i64,
    steps: Option<u32>,
    cfg_scale: &str,
    checkpoint: &Option<String>,
    lora: &Option<String>,
    lora_strength_model: &str,
    lora_strength_clip: &str,
) -> (r: Vec<(String, String)>)
    ensures
        pairs_view(r@) == seq![
            ("positive_prompt"@, positive_prompt@),
            ("negative_prompt"@, negative_prompt@),
            ("input_image"@, input_image@),
            ("denoise_strength"@, denoise_strength@),
        ] + sampling_pairs(seed, steps, cfg_scale@, *checkpoint)
            + lora_pairs(*lora, lora_strength_model@, lora_strength_clip@),
{
    let mut r: Vec<(String, String)> = Vec::new();
    push_pair(&mut r, "positive_prompt", positive_prompt);
    push_pair(&mut r, "negative_prompt", negative_prompt);
    push_pair(&mut r, "input_image", input_image);
    push_pair(&mut r, "denoise_strength", denoise_strength);
    push_sampling(&mut r, seed, steps, cfg_scale, checkpoint);
    push_lora(&mut r, lora, lora_strength_model, lora_strength_clip);
    proof {
        assert(pairs_view(r@) =~= seq![
            ("positive_prompt"@, positive_prompt@),
            ("negative_prompt"@, negative_prompt@),
            ("input_image"@, input_image@),
            ("denoise_strength"@, denoise_strength@),
        ] + sampling_pairs(seed, steps, cfg_scale@, *checkpoint)
            + lora_pairs(*lora, lora_strength_model@, lora_strength_clip@));
    }
    r
}

/// The values of the direction workflow for one direction: the uploaded
/// concept image, the prompt `{direction} view character`, no negative
/// prompt, the IP-Adapter weight as written.
pub fn direction_replacements(
    reference_image: &str,
    direction: &str,
    ipadapter_weight: &str,
    seed: i64,
    steps: Option<u32>,
    cfg_scale: &str,
    checkpoint: &Option<String>,
    lora: &Option<String>,
    lora_weight: &str,
) -> (r: Vec<(String, String)>)
    ensures
        pairs_view(r@) == seq![
            ("reference_image"@, reference_image@),
            ("positive_prompt"@, direction@ + " view character"@),
            ("negative_prompt"@, Seq::<char>::empty()),
            ("direction"@, direction@),
            ("ipadapter_weight"@, ipadapter_weight@),
        ] + sampling_pairs(seed, steps, cfg_scale@, *checkpoint) + optional_lora_pairs(*lora, lora_weight@),
{
    let mut r: Vec<(String, String)> = Vec::new();
    push_pair(&mut r, "reference_image", reference_image);
    let prompt = concat3(direction, " view character", "");
    proof {
        reveal_strlit("");
        assert(""@ =~= Seq::<char>::empty());
        assert(prompt@ =~= direction@ + " view character"@);
    }
    push_pair(&mut r, "positive_prompt", prompt.as_str());
    push_pair(&mut r, "negative_prompt", "");
    push_pair(&mut r, "direction", direction);
    push_pair(&mut r, "ipadapter_weight", ipadapter_weight);
    push_sampling(&mut r, seed, steps, cfg_scale, checkpoint);
    push_optional_lora(&mut r, lora, lora_weight);
    proof {
        reveal_strlit("");
        assert(pairs_view(r@) =~= seq![
            ("reference_image"@, reference_image@),
            ("positive_prompt"@, direction@ + " view character"@),
            ("negative_prompt"@, Seq::<char>::empty()),
            ("direction"@, direction@),
            ("ipadapter_weight"@, ipadapter_weight@),
        ] + sampling_pairs(seed, steps, cfg_scale@, *checkpoint) + optional_lora_pairs(*lora, lora_weight@));
    }
    r
}

/// The prompt of one animation frame.
pub open spec fn animation_prompt(direction: Seq<char>, animation: Seq<char>, frame: nat) -> Seq<char> {
    direction + " view, "@ + animation + " animation, frame "@ + decimal(frame)
}

/// The values of the animation workflow for one frame: the uploaded base
/// pose, the frame's prompt, no negative prompt, the direction, animation
/// and frame number, the IP-Adapter weight as written.
pub fn animation_replacements(
    reference_image: &str,
    direction: &str,
    animation_name: &str,
    frame: u32,
    ipadapter_weight: &str,
    seed: i64,
    steps: Option<u32>,
    cfg_scale: &str,
    checkpoint: &Option<String>,
    lora: &Option<String>,
    lora_weight: &str,
) -> (r: Vec<(String, String)>)
    ensures
        pairs_view(r@) == seq![
            ("reference_image"@, reference_image@),
            ("positive_prompt"@, animation_prompt(direction@, animation_name@, frame as nat)),
            ("negative_prompt"@, Seq::<char>::empty()),
            ("direction"@, direction@),
            ("animation_name"@, animation_name@),
            ("frame_index"@, decimal(frame as nat)),
            ("ipadapter_weight"@, ipadapter_weight@),
        ] + sampling_pairs(seed, steps, cfg_scale@, *checkpoint) + optional_lora_pairs(*lora, lora_weight@),
{
    let mut r: Vec<(String, String)> = Vec::new();
    push_pair(&mut r, "reference_image", reference_image);
    let frame_text = u64_text(frame as u64);
    let mut prompt = concat3(direction, " view, ", animation_name);
    prompt.append(" animation, frame ");
    prompt.append(frame_text.as_str());
    push_pair(&mut r, "positive_prompt", prompt.as_str());
    push_pair(&mut r, "negative_prompt", "");
    push_pair(&mut r, "direction", direction);
    push_pair(&mut r, "animation_name", animation_name);
    push_pair(&mut r, "frame_index", frame_text.as_str());
    push_pair(&mut r, "ipadapter_weight", ipadapter_weight);
    push_sampling(&mut r, seed, steps, cfg_scale, checkpoint);
    push_optional_lora(&mut r, lora, lora_weight);
    proof {
        reveal_strlit("");
        assert(""@ =~= Seq::<char>::empty());
        assert(pairs_view(r@) =~= seq![
            ("reference_image"@, reference_image@),
            ("positive_prompt"@, animation_prompt(direction@, animation_name@, frame as nat)),
            ("negative_prompt"@, Seq::<char>::empty()),
            ("direction"@, direction@),
            ("animation_name"@, animation_name@),
            ("frame_index"@, decimal(frame as nat)),
            ("ipadapter_weight"@, ipadapter_weight@),
        ] + sampling_pairs(seed, steps, cfg_scale@, *checkpoint) + optional_lora_pairs(*lora, lora_weight@));
    }
    r
}

// ------------------------------------------------------------------
// Output files
// ------------------------------------------------------------------

/// `{prefix}_{timestamp}_{n:03}.png`: the file of candidate `n` (from 1).
pub fn candidate_file_name(prefix: &str, timestamp: &str, n: u32) -> (s: String)
    ensures
        s@ == prefix@ + "_"@ + timestamp@ + "_"@ + zero_padded(decimal(n as nat), 3) + ".png"@,
{
    let num = padded_u64_text(n as u64, 3);
    let mut s = concat3(prefix, "_", timestamp);
    s.append("_");
    s.append(num.as_str());
    s.append(".png");
    s
}

/// `{direction}_base.png`: the base pose of one direction.
pub fn direction_file_name(direction: &str) -> (s: String)
    ensures
        s@ == direction@ + "_base.png"@,
{
    let mut s = direction.to_owned();
    s.append("_base.png");
    s
}

/// `{direction}_{animation}_frame_{frame:02}.png`: one frame of an animation.
pub fn frame_file_name(direction: &str, animation_name: &str, frame: u32) -> (s: String)
    ensures
        s@ == direction@ + "_"@ + animation_name@ + "_frame_"@ + zero_padded(decimal(frame as nat), 2) + ".png"@,
{
    let num = padded_u64_text(frame as u64, 2);
    let mut s = concat3(direction, "_", animation_name);
    s.append("_frame_");
    s.append(num.as_str());
    s.append(".png");
    s
}

// ------------------------------------------------------------------
// Frames
// ------------------------------------------------------------------

/// The frames that the service generates: the key frames below the
/// frame count, in the order given, or every frame when no key frames
/// are given.
pub open spec fn generated_frames(keyframes: Option<Seq<u32>>, total: u32) -> Seq<u32> {
    match keyframes {
        Some(kf) => kf.filter(|f: u32| f < total),
        None => Seq::new(total as nat, |i: int| i as u32),
    }
}

pub open spec fn opt_seq(o: Option<Vec<u32>>) -> Option<Seq<u32>> {
    match o {
        Some(v) => Some(v@),
        None => None,
    }
}

/// The frames to generate for an animation of `total` frames.
pub fn frames_to_generate(keyframes: &Option<Vec<u32>>, total: u32) -> (r: Vec<u32>)
    ensures
        r@ == generated_frames(opt_seq(*keyframes), total),
{
    let mut r: Vec<u32> = Vec::new();
    match keyframes {
        Some(kf) => {
            let ghost pred = |f: u32| f < total;
            let mut i: usize = 0;
            proof {
                reveal(Seq::filter);
                assert(kf@.take(0) =~= Seq::<u32>::empty());
            }
            while i < kf.len()
                invariant
                    i <= kf.len(),
                    pred == (|f: u32| f < total),
                    r@ == kf@.take(i as int).filter(pred),
                decreases kf.len() - i,
            {
                proof {
                    reveal(Seq::filter);
                    assert(kf@.take(i + 1).drop_last() =~= kf@.take(i as int));
                    assert(kf@.take(i + 1).last() == kf@[i as int]);
                }
                if kf[i] < total {
                    r.push(kf[i]);
                }
                i = i + 1;
            }
            proof {
                assert(kf@.take(kf.len() as int) =~= kf@);
            }
        },
        None => {
            let mut f: u32 = 0;
            while f < total
                invariant
                    f <= total,
                    r@ == Seq::new(f as nat, |i: int| i as u32),
                decreases total - f,
            {
                r.push(f);
                proof {
                    assert(r@ =~= Seq::new((f + 1) as nat, |i: int| i as u32));
                }
                f = f + 1;
            }
        },
    }
    r
}

/// Whether missing frames are filled in afterwards: only when key frames
/// were given and fewer frames than the count came back.
pub fn needs_interpolation(has_keyframes: bool, generated: usize, total: u32) -> (b: bool)
    ensures
        b == (has_keyframes && generated < total),
{
    has_keyframes && generated < total as usize
}

pub open spec fn has_frame(images: Seq<GeneratedImage>, f: u32) -> bool {
    exists|k: int| 0 <= k < images.len() && images[k].frame_index == Some(f)
}

/// The interpolated frames to write: of the frames `0..count`, those that
/// no generated image already is, in increasing order.
pub fn frames_to_fill(count: u32, generated: &Vec<GeneratedImage>) -> (r: Vec<u32>)
    ensures
        r@ == Seq::new(count as nat, |i: int| i as u32).filter(|f: u32| !has_frame(generated@, f)),
{
    let ghost pred = |f: u32| !has_frame(generated@, f);
    let ghost all = Seq::new(count as nat, |i: int| i as u32);
    let mut r: Vec<u32> = Vec::new();
    let mut f: u32 = 0;
    proof {
        reveal(Seq::filter);
        assert(all.take(0) =~= Seq::<u32>::empty());
    }
    while f < count
        invariant
            f <= count,
            pred == (|f: u32| !has_frame(generated@, f)),
            all == Seq::new(count as nat, |i: int| i as u32),
            r@ == all.take(f as int).filter(pred),
        decreases count - f,
    {
        let mut found = false;
        let mut k: usize = 0;
        while k < generated.len()
            invariant
                k <= generated.len(),
                found == (exists|j: int| 0 <= j < k && generated@[j].frame_index == Some(f)),
            decreases generated.len() - k,
        {
            if generated[k].frame_index == Some(f) {
                found = true;
            }
            k = k + 1;
        }
        proof {
            reveal(Seq::filter);
            assert(all.take(f + 1).drop_last() =~= all.take(f as int));
            assert(all.take(f + 1).last() == f);
        }
        if !found {
            r.push(f);
        }
        f = f + 1;
    }
    proof {
        assert(all.take(count as int) =~= all);
    }
    r
}

/// The pixel grid of a pixel-art conversion: only when both sides are
/// given and neither is zero.
pub fn pixel_grid(width: Option<u32>, height: Option<u32>) -> (r: Option<(u32, u32)>)
    ensures
        r == (match (width, height) {
            (Some(w), Some(h)) => if w > 0 && h > 0 { Some((w, h)) } else { None },
            _ => None,
        }),
{
    match (width, height) {
        (Some(w), Some(h)) => if w > 0 && h > 0 { Some((w, h)) } else { None },
        _ => None,
    }
}

/// The image record of a generated file.
pub fn generated_image(path: &str, direction: &Option<String>, animation: &Option<String>, frame_index: Option<u32>) -> (g: GeneratedImage)
    ensures
        g.path@ == path@,
        opt_view(g.direction) == opt_view(*direction),
        opt_view(g.animation) == opt_view(*animation),
        g.frame_index == frame_index,
{
    GeneratedImage {
        path: path.to_owned(),
        direction: clone_opt(direction),
        animation: clone_opt(animation),
        frame_index,
    }
}

/// The frame an image is sorted by: its frame index, 0 when it has none.
pub open spec fn frame_key(g: GeneratedImage) -> u32 {
    match g.frame_index {
        Some(f) => f,
        None => 0,
    }
}

pub open spec fn frame_le() -> spec_fn(GeneratedImage, GeneratedImage) -> bool {
    |a: GeneratedImage, b: GeneratedImage| frame_key(a) <= frame_key(b)
}

/// Frame order is a total preorder, so sorting by frame returns the images
/// sorted, with every image kept.
pub proof fn lemma_frame_order()
    ensures
        total_preorder(frame_le()),
{
}

fn frame_of(g: &GeneratedImage) -> (f: u32)
    ensures
        f == frame_key(*g),
{
    match g.frame_index {
        Some(f) => f,
        None => 0,
    }
}

/// The images of an animation ordered by frame; images of the same frame
/// keep their order (`sort_by_key` on the frame index, 0 when absent).
pub fn sort_by_frame(images: Vec<GeneratedImage>) -> (r: Vec<GeneratedImage>)
    ensures
        r@ == insertion_sorted(images@, frame_le()),
{
    let mut r: Vec<GeneratedImage> = Vec::new();
    let mut rest = images;
    let ghost all = rest@;
    let n = rest.len();
    let mut i: usize = 0;
    proof {
        assert(all.take(0) =~= Seq::<GeneratedImage>::empty());
    }
    while i < n
        invariant
            n == all.len(),
            i <= n,
            rest@ == all.skip(i as int),
            r@ == insertion_sorted(all.take(i as int), frame_le()),
        decreases n - i,
    {
        let x = rest.remove(0);
        proof {
            assert(x == all[i as int]);
            assert(rest@ =~= all.skip(i + 1));
            assert(all.take(i + 1).drop_last() =~= all.take(i as int));
            assert(all.take(i + 1).last() == x);
        }
        let key = frame_of(&x);
        let mut p: usize = 0;
        let ghost sorted = r@;
        proof {
            assert(sorted.skip(0) =~= sorted);
        }
        while p < r.len() && frame_of(&r[p]) <= key
            invariant
                r@ == sorted,
                p <= r.len(),
                key == frame_key(x),
                insert_position(sorted.skip(p as int), x, frame_le()) + p == insert_position(sorted, x, frame_le()),
            decreases r.len() - p,
        {
            proof {
                assert(sorted.skip(p as int)[0] == sorted[p as int]);
                assert(sorted.skip(p as int).drop_first() =~= sorted.skip(p + 1));
            }
            p = p + 1;
        }
        proof {
            if p < r.len() {
                assert(sorted.skip(p as int)[0] == sorted[p as int]);
            }
        }
        r.insert(p, x);
        i = i + 1;
    }
    proof {
        assert(all.take(n as int) =~= all);
    }
    r
}

/// The base seed of a step: the given seed, else the clock's milliseconds
/// since the Unix epoch (cut to 64 bits, as `as i64` does), else 42 when
/// the clock reads before the epoch.
pub fn resolve_seed(seed: Option<i64>, clock_millis: Option<u128>) -> (r: i64)
    ensures
        r == match seed {
            Some(s) => s,
            None => match clock_millis {
                Some(m) => m as i64,
                None => 42,
            },
        },
{
    match seed {
        Some(s) => s,
        None => match clock_millis {
            Some(m) => #[verifier::truncate] (m as i64),
            None => 42,
        },
    }
}

/// Every frame handed to the service lies below the frame count.
pub proof fn lemma_generated_frames_below_total(keyframes: Option<Seq<u32>>, total: u32)
    ensures
        forall|i: int| 0 <= i < generated_frames(keyframes, total).len() ==> #[trigger] generated_frames(keyframes, total)[i] < total,
{
    match keyframes {
        Some(kf) => {
            assert forall|i: int| 0 <= i < generated_frames(keyframes, total).len() implies #[trigger] generated_frames(keyframes, total)[i] < total by {
                kf.lemma_filter_pred(|f: u32| f < total, i);
            }
        },
        None => {},
    }
}

/// After filling, every frame below the count is there: generated, or
/// among the frames to fill.
pub proof fn lemma_fill_completes(count: u32, generated: Seq<GeneratedImage>, f: u32)
    requires
        f < count,
    ensures
        has_frame(generated, f) || Seq::new(count as nat, |i: int| i as u32).filter(|g: u32| !has_frame(generated, g)).contains(f),
{
    let all = Seq::new(count as nat, |i: int| i as u32);
    if !has_frame(generated, f) {
        assert(all[f as int] == f);
        all.lemma_filter_contains(|g: u32| !has_frame(generated, g), f as int);
    }
}

} // verus!
