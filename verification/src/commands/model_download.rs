//! Whether the background-removal model has been downloaded.
use vstd::prelude::*;

verus! {

/// Whether the ONNX model is on disk, where it goes, and its size.
#[derive(Debug)]
pub struct OnnxModelStatus {
    pub downloaded: bool,
    pub path: String,
    pub file_size: Option<u64>,
}

/// The status of the model file at `path`: downloaded when it exists, with
/// its size when that could be read; a missing file has no size.
pub fn onnx_model_status(path: String, exists: bool, file_size: Option<u64>) -> (st: OnnxModelStatus)
    ensures
        st.downloaded == exists,
        st.path@ == path@,
        st.file_size == (if exists { file_size } else { None }),
{
    OnnxModelStatus { downloaded: exists, path, file_size: if exists { file_size } else { None } }
}

/// A model file already on disk is used as it is when it is not empty.
pub fn model_already_present(exists: bool, file_size: u64) -> (b: bool)
    ensures
        b == (exists && file_size > 0),
{
    exists && file_size > 0
}

} // verus!
