//! Characters: their records, the statuses they pass through, and how an
//! update merges into a record.
use vstd::prelude::*;
use crate::error::{message, message_with, AppError};
use crate::text::{clone_opt, is_blank, is_blank_str, opt_view, str_eq};

verus! {

/// A character as stored.
#[derive(Debug)]
pub struct Character {
    pub id: String,
    pub project_id: String,
    pub name: String,
    pub category: String,
    pub custom_prompt: Option<String>,
    pub status: String,
    pub spritesheet_path: Option<String>,
    pub created_at: String,
    pub updated_at: String,
}

/// What is needed to create a character.
#[derive(Debug)]
pub struct CreateCharacter {
    pub project_id: String,
    pub name: String,
    pub category: Option<String>,
    pub custom_prompt: Option<String>,
}

/// New values for a character; an absent value is left as it is.
#[derive(Debug)]
pub struct UpdateCharacter {
    pub name: Option<String>,
    pub category: Option<String>,
    pub custom_prompt: Option<String>,
}

/// The statuses a character can have.
pub open spec fn is_character_status(s: Seq<char>) -> bool {
    s == "draft"@ || s == "importing"@ || s == "processing"@ || s == "complete"@
}

/// A character's status can only be set to `draft`, `importing`,
/// `processing` or `complete`.
pub fn check_character_status(status: &str) -> (r: Result<(), AppError>)
    ensures
        is_character_status(status@) ==> r is Ok,
        !is_character_status(status@) ==> (r matches Err(AppError::Internal(m))
            && m@ == "Invalid character status: "@ + status@),
{
    if str_eq(status, "draft") || str_eq(status, "importing") || str_eq(status, "processing") || str_eq(
        status,
        "complete",
    ) {
        Ok(())
    } else {
        Err(AppError::Internal(message_with("Invalid character status: ", status)))
    }
}

/// A new character's category: the given one, `enemy` when none is given.
pub fn new_character_category(input: &CreateCharacter) -> (c: String)
    ensures
        c@ == match input.category {
            Some(k) => k@,
            None => "enemy"@,
        },
{
    match &input.category {
        Some(k) => k.clone(),
        None => message("enemy"),
    }
}

/// The name, category and prompt a character has after an update.
#[derive(Debug)]
pub struct CharacterFields {
    pub name: String,
    pub category: String,
    pub custom_prompt: Option<String>,
}

/// Merges an update into a character: each given value replaces the
/// stored one; an absent prompt keeps the stored prompt.
pub fn merge_character_update(existing: &Character, update: &UpdateCharacter) -> (f: CharacterFields)
    ensures
        f.name@ == match update.name {
            Some(n) => n@,
            None => existing.name@,
        },
        f.category@ == match update.category {
            Some(c) => c@,
            None => existing.category@,
        },
        opt_view(f.custom_prompt) == match update.custom_prompt {
            Some(p) => Some(p@),
            None => opt_view(existing.custom_prompt),
        },
{
    let name = match &update.name {
        Some(n) => n.clone(),
        None => existing.name.clone(),
    };
    let category = match &update.category {
        Some(c) => c.clone(),
        None => existing.category.clone(),
    };
    let custom_prompt = match &update.custom_prompt {
        Some(p) => Some(p.clone()),
        None => clone_opt(&existing.custom_prompt),
    };
    CharacterFields { name, category, custom_prompt }
}

/// The directories made for a new character, under its directory.
pub fn character_directories() -> (d: Vec<&'static str>)
    ensures
        d.len() == 5,
        d[0]@ == "raw"@,
        d[1]@ == "processed"@,
        d[2]@ == "bg_removed"@,
        d[3]@ == "normalized"@,
        d[4]@ == "spritesheet"@,
{
    let mut d: Vec<&'static str> = Vec::new();
    d.push("raw");
    d.push("processed");
    d.push("bg_removed");
    d.push("normalized");
    d.push("spritesheet");
    d
}

/// Values that must hold more than whitespace.
#[derive(Debug, Clone, Copy, PartialEq, Eq, Structural)]
pub enum RequiredField {
    ProjectName,
    CharacterName,
    SettingKey,
}

pub open spec fn required_message(f: RequiredField) -> Seq<char> {
    match f {
        RequiredField::ProjectName => "Project name is required"@,
        RequiredField::CharacterName => "Character name is required"@,
        RequiredField::SettingKey => "Setting key is required"@,
    }
}

/// Rejects a value that is empty or only whitespace.
pub fn check_required(value: &str, field: RequiredField) -> (r: Result<(), AppError>)
    ensures
        !is_blank(value@) ==> r is Ok,
        is_blank(value@) ==> (r matches Err(AppError::Validation(m)) && m@ == required_message(field)),
{
    if is_blank_str(value) {
        let m = match field {
            RequiredField::ProjectName => message("Project name is required"),
            RequiredField::CharacterName => message("Character name is required"),
            RequiredField::SettingKey => message("Setting key is required"),
        };
        Err(AppError::Validation(m))
    } else {
        Ok(())
    }
}

} // verus!
