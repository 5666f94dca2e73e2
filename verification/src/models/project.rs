//! Project settings that the logic reads: directions and animations.
use vstd::prelude::*;

verus! {

/// One animation of a project: its name, how many frames it has and how
/// long each frame is shown.
#[derive(Debug)]
pub struct AnimationDef {
    pub name: String,
    pub frame_count: u32,
    pub frame_duration_ms: u32,
}

/// The total number of frames of a list of animations.
pub open spec fn frame_total(animations: Seq<AnimationDef>) -> nat
    decreases animations.len(),
{
    if animations.len() == 0 {
        0
    } else {
        frame_total(animations.drop_last()) + animations.last().frame_count as nat
    }
}

/// Taking one more animation adds its frames to the total.
pub proof fn lemma_frame_total_step(animations: Seq<AnimationDef>, i: int)
    requires
        0 <= i < animations.len(),
    ensures
        frame_total(animations.take(i + 1)) == frame_total(animations.take(i)) + animations[i].frame_count,
{
    assert(animations.take(i + 1).drop_last() =~= animations.take(i));
}

/// The frame total of a prefix is at most that of the whole list.
pub proof fn lemma_frame_total_prefix(animations: Seq<AnimationDef>, i: int)
    requires
        0 <= i <= animations.len(),
    ensures
        frame_total(animations.take(i)) <= frame_total(animations),
    decreases animations.len() - i,
{
    if i < animations.len() {
        lemma_frame_total_prefix(animations, i + 1);
        lemma_frame_total_step(animations, i);
    } else {
        assert(animations.take(i) =~= animations);
    }
}

/// The directions a new project has when none are given.
pub open spec fn default_directions_spec() -> Seq<Seq<char>> {
    seq!["down"@, "left"@, "right"@, "up"@]
}

/// The directions a new project has when none are given: down, left, right, up.
pub fn default_directions() -> (r: Vec<String>)
    ensures
        r@.map_values(|s: String| s@) == default_directions_spec(),
{
    let r = vec!["down".to_owned(), "left".to_owned(), "right".to_owned(), "up".to_owned()];
    proof {
        assert(r@.map_values(|s: String| s@) =~= default_directions_spec());
    }
    r
}

/// The animations a new project has when none are given, as
/// (name, frame count, frame duration in ms).
pub open spec fn default_animations_spec() -> Seq<(Seq<char>, u32, u32)> {
    seq![("idle"@, 2u32, 300u32), ("walk"@, 4u32, 150u32), ("attack"@, 4u32, 100u32), ("hit"@, 2u32, 200u32)]
}

pub open spec fn animation_view(a: AnimationDef) -> (Seq<char>, u32, u32) {
    (a.name@, a.frame_count, a.frame_duration_ms)
}

/// The animations a new project has when none are given: idle (2 frames,
/// 300 ms), walk (4, 150 ms), attack (4, 100 ms), hit (2, 200 ms).
pub fn default_animations() -> (r: Vec<AnimationDef>)
    ensures
        r@.map_values(|a: AnimationDef| animation_view(a)) == default_animations_spec(),
{
    let r = vec![
        AnimationDef { name: "idle".to_owned(), frame_count: 2, frame_duration_ms: 300 },
        AnimationDef { name: "walk".to_owned(), frame_count: 4, frame_duration_ms: 150 },
        AnimationDef { name: "attack".to_owned(), frame_count: 4, frame_duration_ms: 100 },
        AnimationDef { name: "hit".to_owned(), frame_count: 2, frame_duration_ms: 200 },
    ];
    proof {
        assert(r@.map_values(|a: AnimationDef| animation_view(a)) =~= default_animations_spec());
    }
    r
}

/// The tile size of a new project when none is given.
pub const DEFAULT_TILE_SIZE: i32 = 64;

/// The style prompt of a new project when none is given.
pub fn default_style_prompt() -> (r: String)
    ensures
        r@ == "painted miniature figurine, soft PBR material, warm studio lighting, tabletop game piece"@,
{
    "painted miniature figurine, soft PBR material, warm studio lighting, tabletop game piece".to_owned()
}

/// The negative prompt of a new project when none is given.
pub fn default_negative_prompt() -> (r: String)
    ensures
        r@ == "background, shadow on floor, realistic human"@,
{
    "background, shadow on floor, realistic human".to_owned()
}

} // verus!
