//! The decisions of the generation commands: which backend to use, what
//! generated images are recorded as, what clearing a stage removes, how
//! the pipeline's state is restored, and where saved images go.
use vstd::prelude::*;
use crate::error::{message, message_with, AppError};
use crate::models::sprite::{CreateSprite, Sprite};
use crate::ordering::{insertion_sorted, lemma_insertion_sorted, lemma_string_order, lex_order, sort_strings, sorted_by, strings_view};
use crate::posix_path::{extension_of_name, file_name, file_name_of, join, join_path, moved_into, path_in_dir, split_file_name};
use crate::services::cloud_api_client::{provider_of_name, CloudApiProvider};
use crate::services::generation_backend::{or_default, GeneratedImage};
use crate::text::{chars_of, clone_opt, contains_exec, contains_seq, ends_with, ends_with_exec, opt_view, str_eq};

verus! {

// ------------------------------------------------------------------
// Backend
// ------------------------------------------------------------------

/// Which service generates images, and how it is reached.
#[derive(Debug)]
pub enum BackendConfig {
    /// A ComfyUI server at this base URL.
    ComfyUI { endpoint: String },
    /// A cloud service with this API key.
    CloudApi { provider: CloudApiProvider, api_key: String },
}

/// Generation goes to a cloud service when the `generation_backend`
/// setting is `cloud_api`, and to ComfyUI otherwise.
pub fn uses_cloud_backend(backend_setting: &Option<String>) -> (b: bool)
    ensures
        b == (opt_view(*backend_setting) == Some("cloud_api"@)),
{
    match backend_setting {
        Some(s) => str_eq(s.as_str(), "cloud_api"),
        None => false,
    }
}

/// The `cloud_api_provider` setting, `pixellab` when unset.
pub fn provider_setting_name(provider_setting: &Option<String>) -> (s: String)
    ensures
        s@ == or_default(*provider_setting, "pixellab"@),
{
    match provider_setting {
        Some(p) => p.clone(),
        None => message("pixellab"),
    }
}

/// The cloud backend of the service named by `provider_name`, with the
/// key read from that service's setting; a missing or empty key is an error.
pub fn cloud_backend(provider_name: &str, api_key: &Option<String>) -> (r: Result<BackendConfig, AppError>)
    ensures
        ({
            let key = or_default(*api_key, Seq::<char>::empty());
            if key.len() == 0 {
                r matches Err(AppError::CloudApi(m)) && m@ == provider_name@ + " の API キーが設定されていません"@
            } else {
                r matches Ok(BackendConfig::CloudApi { provider, api_key: k }) && provider == provider_of_name(
                    provider_name@,
                ) && k@ == key
            }
        }),
{
    let key = match api_key {
        Some(k) => k.clone(),
        None => String::new(),
    };
    proof {
        assert(or_default(*api_key, Seq::<char>::empty()) == key@);
    }
    if key.as_str().is_empty() {
        return Err(AppError::CloudApi(message_with(provider_name, " の API キーが設定されていません")));
    }
    Ok(BackendConfig::CloudApi { provider: CloudApiProvider::from_str(provider_name), api_key: key })
}

/// The ComfyUI server of the `comfyui_endpoint` setting,
/// `http://127.0.0.1:8188` when unset.
pub fn comfyui_endpoint(endpoint_setting: &Option<String>) -> (s: String)
    ensures
        s@ == or_default(*endpoint_setting, "http://127.0.0.1:8188"@),
{
    match endpoint_setting {
        Some(e) => e.clone(),
        None => message("http://127.0.0.1:8188"),
    }
}

/// The directory of one kind of file of a character:
/// `{base_path}/{character_name}/{sub}`.
pub fn character_dir(base_path: &str, character_name: &str, sub: &str) -> (s: String)
    ensures
        s@ == join_path(join_path(base_path@, character_name@), sub@),
{
    let base = join(base_path, character_name);
    join(base.as_str(), sub)
}

// ------------------------------------------------------------------
// Recording generated images
// ------------------------------------------------------------------

pub open spec fn create_sprite_view(c: CreateSprite) -> (Seq<char>, Seq<char>, Seq<char>, i32, Option<Seq<char>>) {
    (c.character_id@, c.direction@, c.animation@, c.frame_index, opt_view(c.raw_path))
}

/// A direction's base pose is recorded as frame 0 of the `base`
/// animation, in its direction (`unknown` when it has none).
pub open spec fn direction_sprite_of(character_id: Seq<char>, g: GeneratedImage) -> (Seq<char>, Seq<char>, Seq<char>, i32, Option<Seq<char>>) {
    (character_id, or_default(g.direction, "unknown"@), "base"@, 0, Some(g.path@))
}

/// The sprites recorded for the base poses of a direction step.
pub fn direction_sprites(character_id: &str, generated: &Vec<GeneratedImage>) -> (r: Vec<CreateSprite>)
    ensures
        r@.map_values(|c: CreateSprite| create_sprite_view(c))
            == generated@.map_values(|g: GeneratedImage| direction_sprite_of(character_id@, g)),
{
    let mut r: Vec<CreateSprite> = Vec::new();
    let mut i: usize = 0;
    while i < generated.len()
        invariant
            i <= generated.len(),
            r@.map_values(|c: CreateSprite| create_sprite_view(c))
                == generated@.take(i as int).map_values(|g: GeneratedImage| direction_sprite_of(character_id@, g)),
        decreases generated.len() - i,
    {
        let g = &generated[i];
        let direction = match &g.direction {
            Some(d) => d.clone(),
            None => message("unknown"),
        };
        let ghost prev = r@;
        r.push(CreateSprite {
            character_id: character_id.to_owned(),
            direction,
            animation: message("base"),
            frame_index: 0,
            raw_path: Some(g.path.clone()),
        });
        proof {
            assert(generated@.take(i + 1) =~= generated@.take(i as int).push(*g));
            assert(generated@.take(i + 1).map_values(|g: GeneratedImage| direction_sprite_of(character_id@, g))
                =~= generated@.take(i as int).map_values(|g: GeneratedImage| direction_sprite_of(character_id@, g)).push(
                direction_sprite_of(character_id@, *g),
            ));
            assert(r@.map_values(|c: CreateSprite| create_sprite_view(c)) =~= prev.map_values(
                |c: CreateSprite| create_sprite_view(c),
            ).push(create_sprite_view(r@[i as int])));
            assert(create_sprite_view(r@[i as int]) == direction_sprite_of(character_id@, *g));
        }
        i = i + 1;
    }
    proof {
        assert(generated@.take(generated.len() as int) =~= generated@);
    }
    r
}

/// A frame is recorded under its frame number, 0 when it has none; the
/// number is stored as a 32-bit signed integer (`as i32`).
pub open spec fn frame_sprite_of(character_id: Seq<char>, direction: Seq<char>, animation: Seq<char>, g: GeneratedImage) -> (Seq<char>, Seq<char>, Seq<char>, i32, Option<Seq<char>>) {
    (character_id, direction, animation, match g.frame_index {
        Some(f) => f as i32,
        None => 0,
    }, Some(g.path@))
}

/// The sprites recorded for the frames of an animation step.
pub fn animation_sprites(character_id: &str, direction: &str, animation_name: &str, generated: &Vec<GeneratedImage>) -> (r: Vec<CreateSprite>)
    ensures
        r@.map_values(|c: CreateSprite| create_sprite_view(c)) == generated@.map_values(
            |g: GeneratedImage| frame_sprite_of(character_id@, direction@, animation_name@, g),
        ),
{
    let mut r: Vec<CreateSprite> = Vec::new();
    let mut i: usize = 0;
    while i < generated.len()
        invariant
            i <= generated.len(),
            r@.map_values(|c: CreateSprite| create_sprite_view(c)) == generated@.take(i as int).map_values(
                |g: GeneratedImage| frame_sprite_of(character_id@, direction@, animation_name@, g),
            ),
        decreases generated.len() - i,
    {
        let g = &generated[i];
        let frame: i32 = match g.frame_index {
            Some(f) => #[verifier::truncate] (f as i32),
            None => 0,
        };
        let ghost prev = r@;
        r.push(CreateSprite {
            character_id: character_id.to_owned(),
            direction: direction.to_owned(),
            animation: animation_name.to_owned(),
            frame_index: frame,
            raw_path: Some(g.path.clone()),
        });
        proof {
            assert(generated@.take(i + 1) =~= generated@.take(i as int).push(*g));
            assert(generated@.take(i + 1).map_values(
                |g: GeneratedImage| frame_sprite_of(character_id@, direction@, animation_name@, g),
            ) =~= generated@.take(i as int).map_values(
                |g: GeneratedImage| frame_sprite_of(character_id@, direction@, animation_name@, g),
            ).push(frame_sprite_of(character_id@, direction@, animation_name@, *g)));
            assert(r@.map_values(|c: CreateSprite| create_sprite_view(c)) =~= prev.map_values(
                |c: CreateSprite| create_sprite_view(c),
            ).push(create_sprite_view(r@[i as int])));
            assert(create_sprite_view(r@[i as int]) == frame_sprite_of(character_id@, direction@, animation_name@, *g));
        }
        i = i + 1;
    }
    proof {
        assert(generated@.take(generated.len() as int) =~= generated@);
    }
    r
}

// ------------------------------------------------------------------
// Promoting generated sprites
// ------------------------------------------------------------------

/// Only a sprite in the `generated` status can be promoted.
pub fn check_generated(sprite_id: &str, status: &str) -> (r: Result<(), AppError>)
    ensures
        status@ == "generated"@ ==> r is Ok,
        status@ != "generated"@ ==> (r matches Err(AppError::Validation(m)) && m@ == "スプライト "@ + sprite_id@
            + " は 'generated' ステータスではありません (現在: "@ + status@ + ")"@),
{
    if str_eq(status, "generated") {
        Ok(())
    } else {
        let mut m = message_with("スプライト ", sprite_id);
        m.append(" は 'generated' ステータスではありません (現在: ");
        m.append(status);
        m.append(")");
        Err(AppError::Validation(m))
    }
}

/// The generated file of a sprite, which it holds as its raw path.
pub fn generated_file(sprite_id: &str, raw_path: &Option<String>) -> (r: Result<String, AppError>)
    ensures
        match raw_path {
            Some(p) => r matches Ok(s) && s@ == p@,
            None => r matches Err(AppError::Validation(m)) && m@ == "スプライト "@ + sprite_id@ + " にファイルパスがありません"@,
        },
{
    match raw_path {
        Some(p) => Ok(p.clone()),
        None => {
            let mut m = message_with("スプライト ", sprite_id);
            m.append(" にファイルパスがありません");
            Err(AppError::Validation(m))
        },
    }
}

/// Where a file is copied in `dir`, under its own name; a path without a
/// file name is an internal error.
pub fn copy_destination(dir: &str, path: &str) -> (r: Result<String, AppError>)
    ensures
        match moved_into(dir@, path@) {
            Some(d) => r matches Ok(s) && s@ == d,
            None => r matches Err(AppError::Internal(m)) && m@ == "無効なファイルパス"@,
        },
{
    match path_in_dir(dir, path) {
        Some(d) => Ok(d),
        None => Err(AppError::Internal(message("無効なファイルパス"))),
    }
}

// ------------------------------------------------------------------
// Clearing a stage
// ------------------------------------------------------------------

/// Which files of the stage's directory are removed.
#[derive(Debug, Clone, Copy, PartialEq, Eq, Structural)]
pub enum FileSelection {
    /// Every entry that is a file.
    AllFiles,
    /// Files named `*_base.png`: base poses.
    BasePoses,
    /// Files whose name holds `_frame_`: animation frames.
    AnimationFrames,
}

/// What happens to the records of the stage.
#[derive(Debug, Clone, Copy, PartialEq, Eq, Structural)]
pub enum RecordCleanup {
    /// Nothing.
    Keep,
    /// The character's chosen concept image is unset.
    ClearConceptImage,
    /// Generated sprites of the `base` animation are deleted.
    DeleteBasePoseSprites,
    /// Generated sprites of other animations are deleted.
    DeleteFrameSprites,
}

/// What clearing one stage does.
#[derive(Debug)]
pub struct ClearPlan {
    /// The directory under the character's directory.
    pub subdir: String,
    pub files: FileSelection,
    pub records: RecordCleanup,
}

pub open spec fn clear_plan_of(stage: Seq<char>) -> Option<(Seq<char>, FileSelection, RecordCleanup)> {
    if stage == "concept_art"@ {
        Some(("concept_art"@, FileSelection::AllFiles, RecordCleanup::Keep))
    } else if stage == "concept"@ {
        Some(("concepts"@, FileSelection::AllFiles, RecordCleanup::ClearConceptImage))
    } else if stage == "direction"@ {
        Some(("generated"@, FileSelection::BasePoses, RecordCleanup::DeleteBasePoseSprites))
    } else if stage == "animation"@ {
        Some(("generated"@, FileSelection::AnimationFrames, RecordCleanup::DeleteFrameSprites))
    } else {
        None
    }
}

/// What clearing a stage removes: the files of its directory and its
/// records. Any other stage name is an error.
pub fn plan_clear_stage(stage: &str) -> (r: Result<ClearPlan, AppError>)
    ensures
        match clear_plan_of(stage@) {
            Some(p) => r matches Ok(plan) && plan.subdir@ == p.0 && plan.files == p.1 && plan.records == p.2,
            None => r matches Err(AppError::Validation(m)) && m@ == "不正なステージ名です: "@ + stage@,
        },
{
    if str_eq(stage, "concept_art") {
        Ok(ClearPlan { subdir: message("concept_art"), files: FileSelection::AllFiles, records: RecordCleanup::Keep })
    } else if str_eq(stage, "concept") {
        Ok(ClearPlan {
            subdir: message("concepts"),
            files: FileSelection::AllFiles,
            records: RecordCleanup::ClearConceptImage,
        })
    } else if str_eq(stage, "direction") {
        Ok(ClearPlan {
            subdir: message("generated"),
            files: FileSelection::BasePoses,
            records: RecordCleanup::DeleteBasePoseSprites,
        })
    } else if str_eq(stage, "animation") {
        Ok(ClearPlan {
            subdir: message("generated"),
            files: FileSelection::AnimationFrames,
            records: RecordCleanup::DeleteFrameSprites,
        })
    } else {
        Err(AppError::Validation(message_with("不正なステージ名です: ", stage)))
    }
}

pub open spec fn is_selected(sel: FileSelection, name: Seq<char>, is_file: bool) -> bool {
    match sel {
        FileSelection::AllFiles => is_file,
        FileSelection::BasePoses => ends_with(name, "_base.png"@),
        FileSelection::AnimationFrames => contains_seq(name, "_frame_"@),
    }
}

/// Whether a directory entry, by its file name and whether it is a file,
/// is removed.
pub fn is_removed(sel: FileSelection, name: &str, is_file: bool) -> (b: bool)
    ensures
        b == is_selected(sel, name@, is_file),
{
    match sel {
        FileSelection::AllFiles => is_file,
        FileSelection::BasePoses => {
            let v = chars_of(name);
            let suffix = chars_of("_base.png");
            ends_with_exec(&v, &suffix)
        },
        FileSelection::AnimationFrames => {
            let v = chars_of(name);
            let pat = chars_of("_frame_");
            contains_exec(&v, &pat)
        },
    }
}

// ------------------------------------------------------------------
// Restoring the pipeline's state
// ------------------------------------------------------------------

/// A file listed as an image: its extension is `png`, `jpg` or `jpeg`.
pub open spec fn is_image_path(p: Seq<char>) -> bool {
    match file_name_of(p) {
        Some(n) => match extension_of_name(n) {
            Some(e) => e == "png"@ || e == "jpg"@ || e == "jpeg"@,
            None => false,
        },
        None => false,
    }
}

pub open spec fn image_paths(paths: Seq<Seq<char>>) -> Seq<Seq<char>> {
    insertion_sorted(paths.filter(|p: Seq<char>| is_image_path(p)), lex_order())
}

/// The listing shows the images of a directory, each as often as it was
/// listed, in ascending order.
pub proof fn lemma_image_listing(paths: Seq<Seq<char>>)
    ensures
        sorted_by(image_paths(paths), lex_order()),
        image_paths(paths).to_multiset() == paths.filter(|p: Seq<char>| is_image_path(p)).to_multiset(),
{
    lemma_string_order();
    lemma_insertion_sorted(paths.filter(|p: Seq<char>| is_image_path(p)), lex_order());
}

pub fn is_image_file(path: &str) -> (b: bool)
    ensures
        b == is_image_path(path@),
{
    match file_name(path) {
        Some(n) => {
            let (_, ext) = split_file_name(n.as_str());
            match ext {
                Some(e) => str_eq(e.as_str(), "png") || str_eq(e.as_str(), "jpg") || str_eq(e.as_str(), "jpeg"),
                None => false,
            }
        },
        None => false,
    }
}

/// The images of a directory listing, in order.
pub fn list_images(paths: &Vec<String>) -> (r: Vec<String>)
    ensures
        strings_view(r@) == image_paths(strings_view(paths@)),
{
    let ghost pred = |p: Seq<char>| is_image_path(p);
    let ghost all = strings_view(paths@);
    let mut kept: Vec<String> = Vec::new();
    let mut i: usize = 0;
    proof {
        reveal(Seq::filter);
        assert(all.take(0) =~= Seq::<Seq<char>>::empty());
        assert(strings_view(kept@) =~= Seq::<Seq<char>>::empty());
    }
    while i < paths.len()
        invariant
            i <= paths.len(),
            all == strings_view(paths@),
            pred == (|p: Seq<char>| is_image_path(p)),
            strings_view(kept@) == all.take(i as int).filter(pred),
        decreases paths.len() - i,
    {
        proof {
            reveal(Seq::filter);
            assert(all.take(i + 1).drop_last() =~= all.take(i as int));
            assert(all.take(i + 1).last() == paths@[i as int]@);
        }
        let ghost prev = kept@;
        if is_image_file(paths[i].as_str()) {
            kept.push(paths[i].clone());
            proof {
                assert(strings_view(kept@) =~= strings_view(prev).push(paths@[i as int]@));
            }
        }
        i = i + 1;
    }
    proof {
        assert(all.take(paths.len() as int) =~= all);
    }
    sort_strings(kept)
}

/// The pipeline's state as it is restored after a restart.
#[derive(Debug)]
pub struct GenerationState {
    pub concept_art_images: Vec<String>,
    pub selected_concept_art_path: Option<String>,
    pub concept_images: Vec<String>,
    pub selected_concept_path: Option<String>,
    /// The images of `generated` sprites of the `base` animation.
    pub direction_images: Vec<String>,
    /// The images of `generated` sprites of other animations.
    pub animation_frames: Vec<String>,
    /// `idle`, `concept_art`, `concept`, `direction` or `animation`.
    pub stage: String,
}

/// A sprite counts as a generated image while it is `generated` and has
/// its image.
pub open spec fn is_restored(s: Sprite) -> bool {
    s.status@ == "generated"@ && s.raw_path is Some
}

pub open spec fn restored_paths(sprites: Seq<Sprite>, base: bool) -> Seq<Seq<char>> {
    insertion_sorted(
        sprites.filter(|s: Sprite| is_restored(s) && (s.animation@ == "base"@) == base).map_values(
            |s: Sprite| s.raw_path->0@,
        ),
        lex_order(),
    )
}

/// The stage the pipeline had reached: animation frames, else base poses,
/// else a concept (chosen or listed), else concept art, else nothing.
pub open spec fn restored_stage(
    concept_art: Seq<Seq<char>>,
    concepts: Seq<Seq<char>>,
    has_selected_concept: bool,
    directions: Seq<Seq<char>>,
    frames: Seq<Seq<char>>,
) -> Seq<char> {
    if frames.len() > 0 {
        "animation"@
    } else if directions.len() > 0 {
        "direction"@
    } else if has_selected_concept || concepts.len() > 0 {
        "concept"@
    } else if concept_art.len() > 0 {
        "concept_art"@
    } else {
        "idle"@
    }
}

fn sprite_paths(sprites: &Vec<Sprite>, base: bool) -> (r: Vec<String>)
    ensures
        strings_view(r@) == restored_paths(sprites@, base),
{
    let ghost pred = |s: Sprite| is_restored(s) && (s.animation@ == "base"@) == base;
    let ghost f = |s: Sprite| s.raw_path->0@;
    let mut kept: Vec<String> = Vec::new();
    let mut i: usize = 0;
    proof {
        reveal(Seq::filter);
        assert(sprites@.take(0) =~= Seq::<Sprite>::empty());
        assert(strings_view(kept@) =~= sprites@.take(0).filter(pred).map_values(f));
    }
    while i < sprites.len()
        invariant
            i <= sprites.len(),
            pred == (|s: Sprite| is_restored(s) && (s.animation@ == "base"@) == base),
            f == (|s: Sprite| s.raw_path->0@),
            strings_view(kept@) == sprites@.take(i as int).filter(pred).map_values(f),
        decreases sprites.len() - i,
    {
        proof {
            reveal(Seq::filter);
            assert(sprites@.take(i + 1).drop_last() =~= sprites@.take(i as int));
            assert(sprites@.take(i + 1).last() == sprites@[i as int]);
        }
        let s = &sprites[i];
        let ghost prev = kept@;
        let status_ok = str_eq(s.status.as_str(), "generated");
        let is_base = str_eq(s.animation.as_str(), "base");
        match &s.raw_path {
            Some(p) => {
                if status_ok && is_base == base {
                    kept.push(p.clone());
                    proof {
                        assert(pred(*s));
                        assert(sprites@.take(i + 1).filter(pred) == sprites@.take(i as int).filter(pred).push(*s));
                        assert(sprites@.take(i + 1).filter(pred).map_values(f) =~= sprites@.take(i as int).filter(
                            pred,
                        ).map_values(f).push(f(*s)));
                        assert(f(*s) == p@);
                        assert(strings_view(kept@) =~= strings_view(prev).push(p@));
                    }
                } else {
                    proof {
                        assert(sprites@.take(i + 1).filter(pred) =~= sprites@.take(i as int).filter(pred));
                    }
                }
            },
            None => {
                proof {
                    assert(sprites@.take(i + 1).filter(pred) =~= sprites@.take(i as int).filter(pred));
                }
            },
        }
        i = i + 1;
    }
    proof {
        assert(sprites@.take(sprites.len() as int) =~= sprites@);
    }
    sort_strings(kept)
}

/// Restores the pipeline's state from the listings of the concept-art and
/// concept directories, the character's chosen concept, and its sprites.
/// Concept art counts as chosen, its first image, once concepts exist.
pub fn restore_generation_state(
    concept_art_listing: &Vec<String>,
    concept_listing: &Vec<String>,
    selected_concept_path: &Option<String>,
    sprites: &Vec<Sprite>,
) -> (st: GenerationState)
    ensures
        strings_view(st.concept_art_images@) == image_paths(strings_view(concept_art_listing@)),
        strings_view(st.concept_images@) == image_paths(strings_view(concept_listing@)),
        opt_view(st.selected_concept_path) == opt_view(*selected_concept_path),
        opt_view(st.selected_concept_art_path) == (if st.concept_art_images.len() > 0 && st.concept_images.len() > 0 {
            Some(st.concept_art_images@[0]@)
        } else {
            None
        }),
        strings_view(st.direction_images@) == restored_paths(sprites@, true),
        strings_view(st.animation_frames@) == restored_paths(sprites@, false),
        st.stage@ == restored_stage(
            strings_view(st.concept_art_images@),
            strings_view(st.concept_images@),
            selected_concept_path is Some,
            strings_view(st.direction_images@),
            strings_view(st.animation_frames@),
        ),
{
    let concept_art_images = list_images(concept_art_listing);
    let concept_images = list_images(concept_listing);
    let selected_concept_path = clone_opt(selected_concept_path);
    let selected_concept_art_path = if concept_art_images.len() > 0 && concept_images.len() > 0 {
        Some(concept_art_images[0].clone())
    } else {
        None
    };
    let direction_images = sprite_paths(sprites, true);
    let animation_frames = sprite_paths(sprites, false);
    let stage = if animation_frames.len() > 0 {
        message("animation")
    } else if direction_images.len() > 0 {
        message("direction")
    } else if selected_concept_path.is_some() || concept_images.len() > 0 {
        message("concept")
    } else if concept_art_images.len() > 0 {
        message("concept_art")
    } else {
        message("idle")
    };
    GenerationState {
        concept_art_images,
        selected_concept_art_path,
        concept_images,
        selected_concept_path,
        direction_images,
        animation_frames,
        stage,
    }
}

// ------------------------------------------------------------------
// Saved images
// ------------------------------------------------------------------

/// The stages under which images are saved.
pub open spec fn is_saved_stage(stage: Seq<char>) -> bool {
    stage == "concept_art"@ || stage == "pixel_art"@ || stage == "direction"@ || stage == "animation"@
}

/// An image can be saved under `concept_art`, `pixel_art`, `direction` or
/// `animation`; any other stage is an error.
pub fn check_saved_stage(stage: &str) -> (r: Result<(), AppError>)
    ensures
        is_saved_stage(stage@) ==> r is Ok,
        !is_saved_stage(stage@) ==> (r matches Err(AppError::Validation(m)) && m@ == "不正なステージ名です: "@ + stage@),
{
    if str_eq(stage, "concept_art") || str_eq(stage, "pixel_art") || str_eq(stage, "direction") || str_eq(stage, "animation") {
        Ok(())
    } else {
        Err(AppError::Validation(message_with("不正なステージ名です: ", stage)))
    }
}

/// The saved images of a character, stage by stage.
#[derive(Debug)]
pub struct SavedImages {
    pub concept_art: Vec<String>,
    pub pixel_art: Vec<String>,
    pub direction: Vec<String>,
    pub animation: Vec<String>,
}

/// The saved images from the listings of the four stage directories.
pub fn saved_images(
    concept_art: &Vec<String>,
    pixel_art: &Vec<String>,
    direction: &Vec<String>,
    animation: &Vec<String>,
) -> (s: SavedImages)
    ensures
        strings_view(s.concept_art@) == image_paths(strings_view(concept_art@)),
        strings_view(s.pixel_art@) == image_paths(strings_view(pixel_art@)),
        strings_view(s.direction@) == image_paths(strings_view(direction@)),
        strings_view(s.animation@) == image_paths(strings_view(animation@)),
{
    SavedImages {
        concept_art: list_images(concept_art),
        pixel_art: list_images(pixel_art),
        direction: list_images(direction),
        animation: list_images(animation),
    }
}

/// Only a file under a `saved` directory can be deleted: the path must
/// hold `/saved/`.
pub fn check_saved_image_path(image_path: &str) -> (r: Result<(), AppError>)
    ensures
        contains_seq(image_path@, "/saved/"@) ==> r is Ok,
        !contains_seq(image_path@, "/saved/"@) ==> (r matches Err(AppError::Validation(m))
            && m@ == "保存済み画像のパスではありません．削除できるのは saved/ ディレクトリ内のファイルのみです．"@),
{
    let v = chars_of(image_path);
    let pat = chars_of("/saved/");
    if contains_exec(&v, &pat) {
        Ok(())
    } else {
        Err(AppError::Validation(message("保存済み画像のパスではありません．削除できるのは saved/ ディレクトリ内のファイルのみです．")))
    }
}

/// The law of clearing: clearing `concept_art` or `concept` removes every
/// file of its directory; clearing `direction` removes exactly the entries
/// of `generated` named `*_base.png` (never an animation frame such as
/// `down_walk_frame_00.png`) and the generated base-pose sprites; clearing
/// `animation` removes exactly the entries named with `_frame_` and the
/// generated frame sprites.
pub proof fn lemma_clear_selects_its_stage(stage: Seq<char>, name: Seq<char>, is_file: bool)
    ensures
        stage == "direction"@ ==> (clear_plan_of(stage) matches Some((dir, sel, rec)) && dir == "generated"@
            && rec == RecordCleanup::DeleteBasePoseSprites
            && (is_selected(sel, name, is_file) <==> ends_with(name, "_base.png"@))),
        stage == "animation"@ ==> (clear_plan_of(stage) matches Some((dir, sel, rec)) && dir == "generated"@
            && rec == RecordCleanup::DeleteFrameSprites
            && (is_selected(sel, name, is_file) <==> contains_seq(name, "_frame_"@))),
        stage == "concept"@ ==> (clear_plan_of(stage) matches Some((dir, sel, rec)) && dir == "concepts"@
            && rec == RecordCleanup::ClearConceptImage && (is_selected(sel, name, is_file) <==> is_file)),
        stage == "concept_art"@ ==> (clear_plan_of(stage) matches Some((dir, sel, rec)) && dir == "concept_art"@
            && rec == RecordCleanup::Keep && (is_selected(sel, name, is_file) <==> is_file)),
        stage != "direction"@ && stage != "animation"@ && stage != "concept"@ && stage != "concept_art"@
            ==> clear_plan_of(stage) is None,
{
    reveal_strlit("direction");
    reveal_strlit("animation");
    reveal_strlit("concept");
    reveal_strlit("concept_art");
    assert("direction"@ != "concept_art"@) by { assert("direction"@.len() != "concept_art"@.len()); }
    assert("direction"@ != "concept"@) by { assert("direction"@.len() != "concept"@.len()); }
    assert("animation"@ != "concept_art"@) by { assert("animation"@.len() != "concept_art"@.len()); }
    assert("animation"@ != "concept"@) by { assert("animation"@.len() != "concept"@.len()); }
    assert("animation"@ != "direction"@) by { assert("animation"@[0] != "direction"@[0]); }
    assert("concept"@ != "concept_art"@) by { assert("concept"@.len() != "concept_art"@.len()); }
}

/// The law of the restored stage: once a base pose has been generated and
/// no animation frame has, the pipeline is restored to the direction step,
/// whatever concepts exist or are chosen.
pub proof fn lemma_restored_at_direction(
    concept_art: Seq<Seq<char>>,
    concepts: Seq<Seq<char>>,
    has_selected_concept: bool,
    sprites: Seq<Sprite>,
)
    requires
        exists|k: int| 0 <= k < sprites.len() && (#[trigger] sprites[k]).status@ == "generated"@
            && sprites[k].raw_path is Some && sprites[k].animation@ == "base"@,
        forall|k: int| 0 <= k < sprites.len() && (#[trigger] sprites[k]).status@ == "generated"@
            && sprites[k].raw_path is Some ==> sprites[k].animation@ == "base"@,
    ensures
        restored_paths(sprites, true).len() > 0,
        restored_paths(sprites, false).len() == 0,
        restored_stage(concept_art, concepts, has_selected_concept, restored_paths(sprites, true),
            restored_paths(sprites, false)) == "direction"@,
{
    reveal_strlit("direction");
    reveal_strlit("animation");
    assert("animation"@ != "direction"@) by { assert("animation"@[0] != "direction"@[0]); }
    broadcast use vstd::seq_lib::group_to_multiset_ensures;
    let pb = |s: Sprite| is_restored(s) && (s.animation@ == "base"@) == true;
    let pf = |s: Sprite| is_restored(s) && (s.animation@ == "base"@) == false;
    let f = |s: Sprite| s.raw_path->0@;
    let k = choose|k: int| 0 <= k < sprites.len() && (#[trigger] sprites[k]).status@ == "generated"@
        && sprites[k].raw_path is Some && sprites[k].animation@ == "base"@;
    sprites.lemma_filter_contains(pb, k);
    let fb = sprites.filter(pb);
    assert(fb.len() > 0);
    let ff = sprites.filter(pf);
    if ff.len() > 0 {
        sprites.lemma_filter_pred(pf, 0);
        assert(ff.contains(ff[0]));
        sprites.lemma_filter_contains_rev(pf, ff[0]);
        assert(sprites.contains(ff[0]));
        let j = choose|j: int| 0 <= j < sprites.len() && sprites[j] == ff[0];
        assert(sprites[j].status@ == "generated"@ && sprites[j].raw_path is Some);
        assert(false);
    }
    lemma_string_order();
    lemma_insertion_sorted(fb.map_values(f), lex_order());
    lemma_insertion_sorted(ff.map_values(f), lex_order());
    assert(insertion_sorted(fb.map_values(f), lex_order()).to_multiset().len() == fb.map_values(f).to_multiset().len());
    assert(insertion_sorted(ff.map_values(f), lex_order()).to_multiset().len() == ff.map_values(f).to_multiset().len());
    assert(restored_paths(sprites, true) == insertion_sorted(fb.map_values(f), lex_order()));
    assert(restored_paths(sprites, false) == insertion_sorted(ff.map_values(f), lex_order()));
}

} // verus!
