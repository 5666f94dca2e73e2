//! LoRA models that characters can use.
use vstd::prelude::*;
use crate::error::{message_with, AppError};

verus! {

/// A LoRA model as stored.
#[derive(Debug)]
pub struct LoraModel {
    pub id: String,
    pub name: String,
    pub file_path: String,
    pub description: String,
    pub created_at: String,
}

/// What is needed to register a LoRA model.
#[derive(Debug)]
pub struct CreateLoraModel {
    pub name: String,
    pub file_path: String,
    pub description: Option<String>,
}

impl CreateLoraModel {
    /// The description stored: the given one, empty when none is given.
    pub fn stored_description(&self) -> (d: String)
        ensures
            d@ == match self.description {
                Some(s) => s@,
                None => Seq::<char>::empty(),
            },
    {
        match &self.description {
            Some(s) => s.clone(),
            None => String::new(),
        }
    }
}

/// The error of importing a LoRA file that does not exist.
pub fn missing_lora_file_error(file_path: &str) -> (e: AppError)
    ensures
        e matches AppError::Io(m) && m@ == "LoRA ファイルが見つかりません: "@ + file_path@,
{
    AppError::Io(message_with("LoRA ファイルが見つかりません: ", file_path))
}

} // verus!
