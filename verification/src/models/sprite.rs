//! Sprites: one image of one frame of one animation seen from one direction.
use vstd::prelude::*;
use crate::error::{message_with, AppError};
use crate::posix_path::{moved_into, path_in_dir};
use crate::text::{clone_opt, opt_view, str_eq};

verus! {

/// Where a sprite stands in the pipeline.
#[derive(Debug, Clone, Copy, PartialEq, Eq, Structural)]
pub enum SpriteStatus {
    /// Made by AI generation, not yet accepted.
    Generated,
    /// Imported or accepted; the start of the common pipeline.
    Raw,
    /// Textured by ComfyUI.
    AiProcessed,
    /// Background removed.
    BgRemoved,
    /// Normalized to the tile size; ready for the spritesheet.
    Finalized,
}

/// The name under which each status is stored.
pub open spec fn status_name(s: SpriteStatus) -> Seq<char> {
    match s {
        SpriteStatus::Generated => "generated"@,
        SpriteStatus::Raw => "raw"@,
        SpriteStatus::AiProcessed => "ai_processed"@,
        SpriteStatus::BgRemoved => "bg_removed"@,
        SpriteStatus::Finalized => "finalized"@,
    }
}

/// The status stored under a name, if any.
pub open spec fn status_of_name(name: Seq<char>) -> Option<SpriteStatus> {
    if name == "generated"@ {
        Some(SpriteStatus::Generated)
    } else if name == "raw"@ {
        Some(SpriteStatus::Raw)
    } else if name == "ai_processed"@ {
        Some(SpriteStatus::AiProcessed)
    } else if name == "bg_removed"@ {
        Some(SpriteStatus::BgRemoved)
    } else if name == "finalized"@ {
        Some(SpriteStatus::Finalized)
    } else {
        None
    }
}

pub open spec fn invalid_status_message(name: Seq<char>) -> Seq<char> {
    "Invalid sprite status: "@ + name
}

impl SpriteStatus {
    /// The name under which the status is stored.
    pub fn as_str(&self) -> (s: &'static str)
        ensures
            s@ == status_name(*self),
    {
        match self {
            SpriteStatus::Generated => "generated",
            SpriteStatus::Raw => "raw",
            SpriteStatus::AiProcessed => "ai_processed",
            SpriteStatus::BgRemoved => "bg_removed",
            SpriteStatus::Finalized => "finalized",
        }
    }

    /// The status stored under a name; any other name is an error.
    pub fn from_str(s: &str) -> (r: Result<SpriteStatus, AppError>)
        ensures
            match status_of_name(s@) {
                Some(st) => r == Ok::<SpriteStatus, AppError>(st),
                None => r matches Err(AppError::Internal(m)) && m@ == invalid_status_message(s@),
            },
    {
        proof {
            reveal_strlit("generated");
            reveal_strlit("raw");
            reveal_strlit("ai_processed");
            reveal_strlit("bg_removed");
            reveal_strlit("finalized");
        }
        if str_eq(s, "generated") {
            Ok(SpriteStatus::Generated)
        } else if str_eq(s, "raw") {
            Ok(SpriteStatus::Raw)
        } else if str_eq(s, "ai_processed") {
            Ok(SpriteStatus::AiProcessed)
        } else if str_eq(s, "bg_removed") {
            Ok(SpriteStatus::BgRemoved)
        } else if str_eq(s, "finalized") {
            Ok(SpriteStatus::Finalized)
        } else {
            Err(AppError::Internal(message_with("Invalid sprite status: ", s)))
        }
    }
}

/// Every status is read back from its stored name, and a name that reads
/// as a status is that status's stored name.
pub proof fn lemma_status_name_round_trip(s: SpriteStatus, name: Seq<char>)
    ensures
        status_of_name(status_name(s)) == Some(s),
        status_of_name(name) == Some(s) ==> name == status_name(s),
{
    reveal_strlit("generated");
    reveal_strlit("raw");
    reveal_strlit("ai_processed");
    reveal_strlit("bg_removed");
    reveal_strlit("finalized");
    assert("raw"@ != "generated"@) by { assert("raw"@.len() != "generated"@.len()); }
    assert("ai_processed"@ != "generated"@) by { assert("ai_processed"@.len() != "generated"@.len()); }
    assert("ai_processed"@ != "raw"@) by { assert("ai_processed"@.len() != "raw"@.len()); }
    assert("bg_removed"@ != "generated"@) by { assert("bg_removed"@.len() != "generated"@.len()); }
    assert("bg_removed"@ != "raw"@) by { assert("bg_removed"@.len() != "raw"@.len()); }
    assert("bg_removed"@ != "ai_processed"@) by { assert("bg_removed"@.len() != "ai_processed"@.len()); }
    assert("finalized"@ != "generated"@) by { assert("finalized"@[0] != "generated"@[0]); }
    assert("finalized"@ != "raw"@) by { assert("finalized"@.len() != "raw"@.len()); }
    assert("finalized"@ != "ai_processed"@) by { assert("finalized"@.len() != "ai_processed"@.len()); }
    assert("finalized"@ != "bg_removed"@) by { assert("finalized"@.len() != "bg_removed"@.len()); }
}

/// Each status has its own stored name: two statuses with the same name
/// are the same status.
pub proof fn lemma_status_names_distinct(s1: SpriteStatus, s2: SpriteStatus)
    ensures
        status_name(s1) == status_name(s2) ==> s1 == s2,
{
    lemma_status_name_round_trip(s1, status_name(s2));
    lemma_status_name_round_trip(s2, status_name(s2));
}

/// A sprite as stored.
#[derive(Debug)]
pub struct Sprite {
    pub id: String,
    pub character_id: String,
    pub direction: String,
    pub animation: String,
    pub frame_index: i32,
    pub raw_path: Option<String>,
    pub processed_path: Option<String>,
    pub final_path: Option<String>,
    pub status: String,
    pub created_at: String,
}

/// What is needed to create a sprite.
#[derive(Debug)]
pub struct CreateSprite {
    pub character_id: String,
    pub direction: String,
    pub animation: String,
    pub frame_index: i32,
    pub raw_path: Option<String>,
}

/// New image paths for a sprite; an absent path is left as it is.
#[derive(Debug)]
pub struct UpdateSpritePaths {
    pub raw_path: Option<String>,
    pub processed_path: Option<String>,
    pub final_path: Option<String>,
}

/// The image that processing starts from: the processed image if there
/// is one, else the raw image.
pub open spec fn processed_or_raw(s: Sprite) -> Option<Seq<char>> {
    match s.processed_path {
        Some(p) => Some(p@),
        None => opt_view(s.raw_path),
    }
}

/// The latest image of a sprite: final, else processed, else raw.
pub open spec fn latest_image(s: Sprite) -> Option<Seq<char>> {
    match s.final_path {
        Some(p) => Some(p@),
        None => processed_or_raw(s),
    }
}

impl Sprite {
    /// The processed image if there is one, else the raw image.
    pub fn processed_or_raw_path(&self) -> (r: Option<String>)
        ensures
            opt_view(r) == processed_or_raw(*self),
    {
        match &self.processed_path {
            Some(p) => Some(p.clone()),
            None => clone_opt(&self.raw_path),
        }
    }

    /// The final image if there is one, else the processed, else the raw.
    pub fn latest_image_path(&self) -> (r: Option<String>)
        ensures
            opt_view(r) == latest_image(*self),
    {
        match &self.final_path {
            Some(p) => Some(p.clone()),
            None => self.processed_or_raw_path(),
        }
    }
}

/// One sprite of a batch (ComfyUI processing, background removal), in
/// the order of the batch.
#[derive(Debug)]
pub struct BatchItem {
    pub sprite_id: String,
    /// The image sent to ComfyUI: the processed image, else the raw one.
    pub input_path: String,
    /// Where the result is written, under the input's file name; `None`
    /// when the input path has no file name, and the sprite is skipped.
    pub output_path: Option<String>,
}

pub open spec fn batch_item_view(b: BatchItem) -> (Seq<char>, Seq<char>, Option<Seq<char>>) {
    (b.sprite_id@, b.input_path@, opt_view(b.output_path))
}

/// The batch item of a sprite that has a raw or processed image.
pub open spec fn batch_item_of(s: Sprite, output_dir: Seq<char>) -> Option<(Seq<char>, Seq<char>, Option<Seq<char>>)> {
    match processed_or_raw(s) {
        Some(input) => Some((s.id@, input, moved_into(output_dir, input))),
        None => None,
    }
}

/// The sprites that a batch processes, in order: those with a raw or
/// processed image. Their count is the batch's total, and an item's
/// position gives its progress number and its seed offset.
pub fn plan_sprite_batch(sprites: &Vec<Sprite>, output_dir: &str) -> (r: Vec<BatchItem>)
    ensures
        r@.map_values(|b: BatchItem| batch_item_view(b))
            == sprites@.filter_map(|s: Sprite| batch_item_of(s, output_dir@)),
{
    let ghost f = |s: Sprite| batch_item_of(s, output_dir@);
    let mut r: Vec<BatchItem> = Vec::new();
    let mut i: usize = 0;
    proof {
        assert(sprites@.take(0) =~= Seq::<Sprite>::empty());
        assert(r@.map_values(|b: BatchItem| batch_item_view(b)) =~= sprites@.take(0).filter_map(f));
    }
    while i < sprites.len()
        invariant
            i <= sprites.len(),
            f == (|s: Sprite| batch_item_of(s, output_dir@)),
            r@.map_values(|b: BatchItem| batch_item_view(b)) == sprites@.take(i as int).filter_map(f),
        decreases sprites.len() - i,
    {
        proof {
            sprites@.lemma_filter_map_take_succ(f, i as int);
        }
        let ghost prev = r@;
        let sprite = &sprites[i];
        match sprite.processed_or_raw_path() {
            Some(input) => {
                let output = path_in_dir(output_dir, input.as_str());
                r.push(BatchItem { sprite_id: sprite.id.clone(), input_path: input, output_path: output });
                proof {
                    assert(r@.map_values(|b: BatchItem| batch_item_view(b))
                        =~= prev.map_values(|b: BatchItem| batch_item_view(b)) + seq![f(sprites@[i as int])->0]);
                }
            },
            None => {
                proof {
                    assert(f(sprites@[i as int]) is None);
                }
            },
        }
        i = i + 1;
    }
    proof {
        assert(sprites@.take(sprites.len() as int) =~= sprites@);
    }
    r
}

/// A parameterized SQL statement and its values, in order.
#[derive(Debug)]
pub struct SqlStatement {
    pub sql: String,
    pub params: Vec<String>,
}

/// The assignments of the given paths, in the order raw, processed, final.
pub open spec fn path_assignments(paths: UpdateSpritePaths) -> Seq<(Seq<char>, Seq<char>)> {
    (match paths.raw_path { Some(p) => seq![("raw_path = ?"@, p@)], None => Seq::empty() })
        + (match paths.processed_path { Some(p) => seq![("processed_path = ?"@, p@)], None => Seq::empty() })
        + (match paths.final_path { Some(p) => seq![("final_path = ?"@, p@)], None => Seq::empty() })
}

/// The assignments joined with `, `.
pub open spec fn joined_assignments(a: Seq<(Seq<char>, Seq<char>)>) -> Seq<char>
    decreases a.len(),
{
    if a.len() == 0 {
        Seq::empty()
    } else if a.len() == 1 {
        a[0].0
    } else {
        joined_assignments(a.drop_last()) + ", "@ + a.last().0
    }
}

/// The statement that sets the given paths of sprite `id`; nothing when no
/// path is given.
pub fn sprite_paths_update(id: &str, paths: &UpdateSpritePaths) -> (r: Option<SqlStatement>)
    ensures
        ({
            let a = path_assignments(*paths);
            if a.len() == 0 {
                r is None
            } else {
                r matches Some(st) && st.sql@ == "UPDATE sprites SET "@ + joined_assignments(a) + " WHERE id = ?"@
                    && st.params@.map_values(|p: String| p@) == a.map_values(|x: (Seq<char>, Seq<char>)| x.1).push(id@)
            }
        }),
{
    let ghost a = path_assignments(*paths);
    let mut sets: Vec<&'static str> = Vec::new();
    let mut params: Vec<String> = Vec::new();
    let ghost mut done: Seq<(Seq<char>, Seq<char>)> = Seq::empty();
    match &paths.raw_path {
        Some(p) => {
            sets.push("raw_path = ?");
            params.push(p.clone());
            proof { done = done.push(("raw_path = ?"@, p@)); }
        },
        None => {},
    }
    match &paths.processed_path {
        Some(p) => {
            sets.push("processed_path = ?");
            params.push(p.clone());
            proof { done = done.push(("processed_path = ?"@, p@)); }
        },
        None => {},
    }
    match &paths.final_path {
        Some(p) => {
            sets.push("final_path = ?");
            params.push(p.clone());
            proof { done = done.push(("final_path = ?"@, p@)); }
        },
        None => {},
    }
    proof {
        assert(done =~= a);
        assert(sets.len() == a.len());
        assert forall|k: int| 0 <= k < sets.len() implies sets@[k]@ == a[k].0 by {}
        assert(params@.map_values(|p: String| p@) =~= a.map_values(|x: (Seq<char>, Seq<char>)| x.1));
    }
    if sets.len() == 0 {
        return None;
    }
    let mut sql = "UPDATE sprites SET ".to_owned();
    let mut k: usize = 0;
    while k < sets.len()
        invariant
            k <= sets.len(),
            sets.len() == a.len(),
            forall|j: int| 0 <= j < sets.len() ==> sets@[j]@ == a[j].0,
            sql@ == "UPDATE sprites SET "@ + joined_assignments(a.take(k as int)),
        decreases sets.len() - k,
    {
        proof {
            assert(a.take(k + 1).drop_last() =~= a.take(k as int));
            assert(a.take(k + 1).last() == a[k as int]);
            if k == 0 {
                assert(a.take(1).len() == 1);
                assert(a.take(0) =~= Seq::<(Seq<char>, Seq<char>)>::empty());
            }
        }
        if k > 0 {
            sql.append(", ");
        }
        sql.append(sets[k]);
        proof {
            if k == 0 {
                assert(sql@ =~= "UPDATE sprites SET "@ + joined_assignments(a.take(k + 1)));
            } else {
                assert(sql@ =~= "UPDATE sprites SET "@ + joined_assignments(a.take(k + 1)));
            }
        }
        k = k + 1;
    }
    sql.append(" WHERE id = ?");
    proof {
        assert(a.take(a.len() as int) =~= a);
    }
    let ghost before = params@;
    params.push(id.to_owned());
    proof {
        assert(params@.map_values(|p: String| p@) =~= before.map_values(|p: String| p@).push(id@));
    }
    Some(SqlStatement { sql, params })
}

/// The law of batch inputs: a sprite joins a batch exactly when it has a
/// processed or a raw image; its input is the processed image when there
/// is one, else the raw image, and its output keeps the input's file name
/// in the output directory.
pub proof fn lemma_batch_item_input(s: Sprite, output_dir: Seq<char>)
    ensures
        (batch_item_of(s, output_dir) is None) == (s.processed_path is None && s.raw_path is None),
        batch_item_of(s, output_dir) matches Some(item) ==> {
            &&& item.0 == s.id@
            &&& s.processed_path matches Some(p) ==> item.1 == p@
            &&& s.processed_path is None ==> (s.raw_path matches Some(q) && item.1 == q@)
            &&& item.2 == moved_into(output_dir, item.1)
        },
{
}

} // verus!
