use vstd::prelude::*;

verus! {

/// The application's error type. Every variant carries a user-facing
/// message; the variant tells the front end which kind of failure occurred.
#[derive(Debug)]
pub enum AppError {
    /// A resource was not found.
    NotFound(String),
    /// An input failed validation.
    Validation(String),
    /// A database operation failed.
    Database(String),
    /// A file operation failed.
    Io(String),
    /// The ONNX runtime failed.
    Onnx(String),
    /// The ComfyUI server could not be used.
    ComfyUI(String),
    /// Image processing failed.
    ImageProcessing(String),
    /// Exporting assets failed.
    Export(String),
    /// An unexpected internal failure.
    Internal(String),
    /// A cloud generation service failed.
    CloudApi(String),
}

/// The error code of each variant, as the front end branches on it.
pub open spec fn error_code_of(e: AppError) -> Seq<char> {
    match e {
        AppError::NotFound(_) => "NOT_FOUND"@,
        AppError::Validation(_) => "VALIDATION"@,
        AppError::Database(_) => "DATABASE"@,
        AppError::Io(_) => "IO"@,
        AppError::Onnx(_) => "ONNX"@,
        AppError::ComfyUI(_) => "COMFYUI"@,
        AppError::ImageProcessing(_) => "IMAGE_PROCESSING"@,
        AppError::Export(_) => "EXPORT"@,
        AppError::Internal(_) => "INTERNAL"@,
        AppError::CloudApi(_) => "CLOUD_API"@,
    }
}

/// The message an error carries.
pub open spec fn error_message_of(e: AppError) -> Seq<char> {
    match e {
        AppError::NotFound(m) => m@,
        AppError::Validation(m) => m@,
        AppError::Database(m) => m@,
        AppError::Io(m) => m@,
        AppError::Onnx(m) => m@,
        AppError::ComfyUI(m) => m@,
        AppError::ImageProcessing(m) => m@,
        AppError::Export(m) => m@,
        AppError::Internal(m) => m@,
        AppError::CloudApi(m) => m@,
    }
}

/// The label shown in front of the message when the error is displayed.
pub open spec fn error_label_of(e: AppError) -> Seq<char> {
    match e {
        AppError::NotFound(_) => "見つかりません: "@,
        AppError::Validation(_) => "入力エラー: "@,
        AppError::Database(_) => "データベースエラー: "@,
        AppError::Io(_) => "ファイルエラー: "@,
        AppError::Onnx(_) => "ONNXエラー: "@,
        AppError::ComfyUI(_) => "ComfyUIエラー: "@,
        AppError::ImageProcessing(_) => "画像処理エラー: "@,
        AppError::Export(_) => "エクスポートエラー: "@,
        AppError::Internal(_) => "内部エラー: "@,
        AppError::CloudApi(_) => "クラウドAPIエラー: "@,
    }
}

impl AppError {
    /// The error code that the front end uses to branch on the kind of error.
    pub fn error_code(&self) -> (code: &'static str)
        ensures
            code@ == error_code_of(*self),
    {
        match self {
            AppError::NotFound(_) => "NOT_FOUND",
            AppError::Validation(_) => "VALIDATION",
            AppError::Database(_) => "DATABASE",
            AppError::Io(_) => "IO",
            AppError::Onnx(_) => "ONNX",
            AppError::ComfyUI(_) => "COMFYUI",
            AppError::ImageProcessing(_) => "IMAGE_PROCESSING",
            AppError::Export(_) => "EXPORT",
            AppError::Internal(_) => "INTERNAL",
            AppError::CloudApi(_) => "CLOUD_API",
        }
    }

    /// The message this error carries.
    pub fn message(&self) -> (m: &String)
        ensures
            m@ == error_message_of(*self),
    {
        match self {
            AppError::NotFound(m) => m,
            AppError::Validation(m) => m,
            AppError::Database(m) => m,
            AppError::Io(m) => m,
            AppError::Onnx(m) => m,
            AppError::ComfyUI(m) => m,
            AppError::ImageProcessing(m) => m,
            AppError::Export(m) => m,
            AppError::Internal(m) => m,
            AppError::CloudApi(m) => m,
        }
    }

    /// The text shown to the user: the kind's label followed by the message.
    pub fn display_text(&self) -> (t: String)
        ensures
            t@ == error_label_of(*self) + error_message_of(*self),
    {
        let label: &str = match self {
            AppError::NotFound(_) => "見つかりません: ",
            AppError::Validation(_) => "入力エラー: ",
            AppError::Database(_) => "データベースエラー: ",
            AppError::Io(_) => "ファイルエラー: ",
            AppError::Onnx(_) => "ONNXエラー: ",
            AppError::ComfyUI(_) => "ComfyUIエラー: ",
            AppError::ImageProcessing(_) => "画像処理エラー: ",
            AppError::Export(_) => "エクスポートエラー: ",
            AppError::Internal(_) => "内部エラー: ",
            AppError::CloudApi(_) => "クラウドAPIエラー: ",
        };
        let mut t = label.to_owned();
        t.append(self.message().as_str());
        t
    }
}

/// Joins a fixed text and a detail into one message.
pub fn message_with(prefix: &str, detail: &str) -> (m: String)
    ensures
        m@ == prefix@ + detail@,
{
    let mut m = prefix.to_owned();
    m.append(detail);
    m
}

/// Makes a message from a fixed text.
pub fn message(text: &str) -> (m: String)
    ensures
        m@ == text@,
{
    text.to_owned()
}

} // verus!
