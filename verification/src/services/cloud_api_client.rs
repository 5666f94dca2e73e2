//! The decisions of the cloud generation client: which service a setting
//! names, how each is asked, how answers are read, when to retry.
use vstd::prelude::*;
use crate::error::{message, message_with, AppError};
use crate::services::comfyui_client::RetryPolicy;
use crate::text::str_eq;
use base64::Engine;

verus! {

/// The cloud services that can generate images.
#[derive(Debug, Clone, Copy, PartialEq, Eq, Structural)]
pub enum CloudApiProvider {
    Pixellab,
    FalAi,
    Replicate,
}

/// The service a setting names: `fal_ai` or `fal.ai` for fal.ai,
/// `replicate` for Replicate, anything else PixelLab.
pub open spec fn provider_of_name(s: Seq<char>) -> CloudApiProvider {
    if s == "fal_ai"@ || s == "fal.ai"@ {
        CloudApiProvider::FalAi
    } else if s == "replicate"@ {
        CloudApiProvider::Replicate
    } else {
        CloudApiProvider::Pixellab
    }
}

/// The setting that holds each service's API key.
pub open spec fn api_key_setting_of(p: CloudApiProvider) -> Seq<char> {
    match p {
        CloudApiProvider::Pixellab => "pixellab_api_key"@,
        CloudApiProvider::FalAi => "fal_ai_api_key"@,
        CloudApiProvider::Replicate => "replicate_api_key"@,
    }
}

impl CloudApiProvider {
    /// The service a setting names; PixelLab when it names none.
    pub fn from_str(s: &str) -> (p: CloudApiProvider)
        ensures
            p == provider_of_name(s@),
    {
        if str_eq(s, "fal_ai") || str_eq(s, "fal.ai") {
            CloudApiProvider::FalAi
        } else if str_eq(s, "replicate") {
            CloudApiProvider::Replicate
        } else {
            CloudApiProvider::Pixellab
        }
    }

    /// The name of the setting that holds the service's API key.
    pub fn api_key_setting(&self) -> (s: &'static str)
        ensures
            s@ == api_key_setting_of(*self),
    {
        match self {
            CloudApiProvider::Pixellab => "pixellab_api_key",
            CloudApiProvider::FalAi => "fal_ai_api_key",
            CloudApiProvider::Replicate => "replicate_api_key",
        }
    }

    /// Whether the service has its own endpoint for turning a character to
    /// another direction; the others generate from the reference instead.
    pub fn has_rotate_endpoint(&self) -> (b: bool)
        ensures
            b == (*self == CloudApiProvider::Pixellab),
    {
        match self {
            CloudApiProvider::Pixellab => true,
            _ => false,
        }
    }
}

/// One generated image as the client returns it.
#[derive(Debug, Clone)]
pub struct CloudGenerateResult {
    pub image_bytes: Vec<u8>,
    pub index: u32,
}

/// The client's retries: three attempts, waiting 500 ms and then 1 s.
pub fn cloud_retry_policy() -> (p: RetryPolicy)
    ensures
        p.max_attempts == 3,
        p.base_delay_ms == 500,
{
    RetryPolicy { max_attempts: 3, base_delay_ms: 500 }
}

// ------------------------------------------------------------------
// Base64
// ------------------------------------------------------------------

/// The character of a 6-bit value in the standard base64 alphabet.
pub open spec fn b64_char(v: int) -> char {
    if v < 26 {
        (65 + v) as char
    } else if v < 52 {
        (97 + v - 26) as char
    } else if v < 62 {
        (48 + v - 52) as char
    } else if v == 62 {
        '+'
    } else {
        '/'
    }
}

/// Standard base64 with `=` padding (RFC 4648): every 3 bytes become 4
/// characters, and a last group of 1 or 2 bytes is padded.
pub open spec fn base64_standard(b: Seq<u8>) -> Seq<char>
    decreases b.len(),
{
    if b.len() == 0 {
        Seq::empty()
    } else {
        let x0 = b[0] as int;
        let x1 = if b.len() > 1 { b[1] as int } else { 0 };
        let x2 = if b.len() > 2 { b[2] as int } else { 0 };
        let c0 = b64_char(x0 / 4);
        let c1 = b64_char((x0 % 4) * 16 + x1 / 16);
        let c2 = b64_char((x1 % 16) * 4 + x2 / 64);
        let c3 = b64_char(x2 % 64);
        if b.len() == 1 {
            seq![c0, c1, '=', '=']
        } else if b.len() == 2 {
            seq![c0, c1, c2, '=']
        } else {
            seq![c0, c1, c2, c3] + base64_standard(b.skip(3))
        }
    }
}

/// The text of the error that the standard base64 engine reports for a
/// text it cannot decode. It depends on the text alone.
pub uninterp spec fn base64_decode_error_text(text: Seq<char>) -> Seq<char>;

/// The text is the standard base64 form of some bytes.
pub open spec fn is_base64_standard(text: Seq<char>) -> bool {
    exists|b: Seq<u8>| #[trigger] base64_standard(b) == text
}

/// What the standard base64 engine makes of a text: the bytes whose
/// standard form it is, or the error's text when it is no such form.
pub open spec fn base64_standard_decoding(text: Seq<char>) -> Result<Seq<u8>, Seq<char>> {
    if is_base64_standard(text) {
        Ok(choose|b: Seq<u8>| #[trigger] base64_standard(b) == text)
    } else {
        Err(base64_decode_error_text(text))
    }
}

/// No base64 character is the padding `=`, and distinct 6-bit values have
/// distinct characters.
proof fn lemma_b64_char(v: int, w: int)
    requires
        0 <= v < 64,
        0 <= w < 64,
    ensures
        b64_char(v) != '=',
        b64_char(v) == b64_char(w) ==> v == w,
{
}

/// Distinct bytes have distinct standard base64 forms.
pub proof fn lemma_base64_standard_injective(b1: Seq<u8>, b2: Seq<u8>)
    requires
        base64_standard(b1) == base64_standard(b2),
    ensures
        b1 == b2,
    decreases b1.len(),
{
    let t = base64_standard(b1);
    if b1.len() == 0 || b2.len() == 0 {
        if b1.len() != 0 || b2.len() != 0 {
            assert(t.len() == 0 || t.len() >= 4);
            if b1.len() != 0 {
                assert(base64_standard(b1).len() >= 4);
            } else {
                assert(base64_standard(b2).len() >= 4);
            }
        }
        assert(b1 =~= b2);
    } else {
        let x0 = b1[0] as int;
        let x1 = if b1.len() > 1 { b1[1] as int } else { 0 };
        let x2 = if b1.len() > 2 { b1[2] as int } else { 0 };
        let y0 = b2[0] as int;
        let y1 = if b2.len() > 1 { b2[1] as int } else { 0 };
        let y2 = if b2.len() > 2 { b2[2] as int } else { 0 };
        assert(0 <= x0 < 256 && 0 <= x1 < 256 && 0 <= x2 < 256);
        assert(0 <= y0 < 256 && 0 <= y1 < 256 && 0 <= y2 < 256);
        assert(t.len() >= 4);
        let u2 = (x1 % 16) * 4 + x2 / 64;
        let w2 = (y1 % 16) * 4 + y2 / 64;
        lemma_b64_char(x0 / 4, y0 / 4);
        lemma_b64_char((x0 % 4) * 16 + x1 / 16, (y0 % 4) * 16 + y1 / 16);
        lemma_b64_char(u2, w2);
        lemma_b64_char(x2 % 64, y2 % 64);
        let t2 = base64_standard(b2);
        assert(t2 == t);
        assert(t[0] == b64_char(x0 / 4) && t[1] == b64_char((x0 % 4) * 16 + x1 / 16));
        assert(t2[0] == b64_char(y0 / 4) && t2[1] == b64_char((y0 % 4) * 16 + y1 / 16));
        assert(b1.len() >= 2 ==> t[2] == b64_char(u2));
        assert(b2.len() >= 2 ==> t2[2] == b64_char(w2));
        assert(b1.len() >= 3 ==> t[3] == b64_char(x2 % 64));
        assert(b2.len() >= 3 ==> t2[3] == b64_char(y2 % 64));
        // The padding tells how many bytes the first group holds.
        assert((b1.len() == 1) == (b2.len() == 1));
        assert((b1.len() == 2) == (b2.len() == 2));
        assert(x0 / 4 == y0 / 4);
        assert((x0 % 4) * 16 + x1 / 16 == (y0 % 4) * 16 + y1 / 16);
        assert(x0 % 4 == y0 % 4 && x1 / 16 == y1 / 16) by (nonlinear_arith)
            requires
                0 <= x0 < 256, 0 <= x1 < 256, 0 <= y0 < 256, 0 <= y1 < 256,
                (x0 % 4) * 16 + x1 / 16 == (y0 % 4) * 16 + y1 / 16,
        ;
        assert(x0 == y0) by (nonlinear_arith)
            requires
                x0 / 4 == y0 / 4, x0 % 4 == y0 % 4,
        ;
        if b1.len() >= 2 {
            assert(u2 == w2);
            assert(x1 % 16 == y1 % 16 && x2 / 64 == y2 / 64) by (nonlinear_arith)
                requires
                    0 <= x1 < 256, 0 <= x2 < 256, 0 <= y1 < 256, 0 <= y2 < 256,
                    (x1 % 16) * 4 + x2 / 64 == (y1 % 16) * 4 + y2 / 64,
            ;
            assert(x1 == y1) by (nonlinear_arith)
                requires
                    x1 / 16 == y1 / 16, x1 % 16 == y1 % 16,
            ;
        }
        if b1.len() >= 3 {
            assert(x2 % 64 == y2 % 64);
            assert(x2 == y2) by (nonlinear_arith)
                requires
                    x2 / 64 == y2 / 64, x2 % 64 == y2 % 64,
            ;
            let r1 = base64_standard(b1.skip(3));
            let r2 = base64_standard(b2.skip(3));
            assert(t == seq![t[0], t[1], t[2], t[3]] + r1);
            assert(base64_standard(b2) == seq![t[0], t[1], t[2], t[3]] + r2);
            assert(r1 =~= t.skip(4));
            assert(r2 =~= t.skip(4));
            lemma_base64_standard_injective(b1.skip(3), b2.skip(3));
            assert(b1 =~= b2) by {
                assert forall|i: int| 0 <= i < b1.len() implies b1[i] == b2[i] by {
                    if i >= 3 {
                        assert(b1[i] == b1.skip(3)[i - 3]);
                        assert(b2[i] == b2.skip(3)[i - 3]);
                    }
                }
            }
        } else {
            assert(b1 =~= b2);
        }
    }
}

/// Decoding gives back what encoding was given.
pub proof fn lemma_base64_round_trip(b: Seq<u8>)
    ensures
        base64_standard_decoding(base64_standard(b)) == Ok::<Seq<u8>, Seq<char>>(b),
{
    let t = base64_standard(b);
    assert(is_base64_standard(t));
    let c = choose|c: Seq<u8>| #[trigger] base64_standard(c) == t;
    lemma_base64_standard_injective(c, b);
}

/// Calls `base64::engine::general_purpose::STANDARD.encode`: standard
/// base64 with padding.
#[verifier::external_body]
fn base64_encode(bytes: &[u8]) -> (s: String)
    ensures
        s@ == base64_standard(bytes@),
{
    base64::engine::general_purpose::STANDARD.encode(bytes)
}

/// Calls `base64::engine::general_purpose::STANDARD.decode`, which
/// requires canonical padding and no trailing bits: it succeeds exactly on
/// the standard forms of bytes, giving those bytes; otherwise its error
/// becomes its text, named `base64_decode_error_text`.
#[verifier::external_body]
fn base64_decode_raw(text: &str) -> (r: Result<Vec<u8>, String>)
    ensures
        match r {
            Ok(b) => base64_standard(b@) == text@,
            Err(m) => !is_base64_standard(text@) && m@ == base64_decode_error_text(text@),
        },
{
    match base64::engine::general_purpose::STANDARD.decode(text) {
        Ok(b) => Ok(b),
        Err(e) => Err(e.to_string()),
    }
}

/// The base64 text of an image file's bytes, as a reference image is sent.
pub fn encode_image_bytes(bytes: &Vec<u8>) -> (s: String)
    ensures
        s@ == base64_standard(bytes@),
{
    base64_encode(bytes.as_slice())
}

/// Decodes base64 text; a failure is a cloud API error naming the cause.
pub fn base64_decode(input: &str) -> (r: Result<Vec<u8>, AppError>)
    ensures
        match base64_standard_decoding(input@) {
            Ok(b) => r matches Ok(v) && v@ == b,
            Err(e) => r matches Err(AppError::CloudApi(m)) && m@ == "Base64 decode error: "@ + e,
        },
{
    match base64_decode_raw(input) {
        Ok(b) => {
            proof {
                let c = choose|c: Seq<u8>| #[trigger] base64_standard(c) == input@;
                lemma_base64_standard_injective(c, b@);
            }
            Ok(b)
        },
        Err(e) => Err(AppError::CloudApi(message_with("Base64 decode error: ", e.as_str()))),
    }
}

/// The images of a PixelLab answer, decoded in order and numbered from
/// 0; the first that does not decode makes the whole answer an error.
pub open spec fn decoded_images(texts: Seq<String>) -> Result<Seq<Seq<u8>>, Seq<char>>
    decreases texts.len(),
{
    if texts.len() == 0 {
        Ok(Seq::empty())
    } else {
        match decoded_images(texts.drop_last()) {
            Err(e) => Err(e),
            Ok(prev) => match base64_standard_decoding(texts.last()@) {
                Ok(b) => Ok(prev.push(b)),
                Err(e) => Err(e),
            },
        }
    }
}

/// Reads the base64 images of a PixelLab answer into numbered results.
pub fn decode_images(images: &Vec<String>) -> (r: Result<Vec<CloudGenerateResult>, AppError>)
    requires
        images.len() <= u32::MAX,
    ensures
        match decoded_images(images@) {
            Ok(bs) => r matches Ok(v) && v.len() == bs.len() && forall|i: int|
                0 <= i < v.len() ==> (#[trigger] v[i]).image_bytes@ == bs[i] && v[i].index == i,
            Err(e) => r matches Err(AppError::CloudApi(m)) && m@ == "Base64 decode error: "@ + e,
        },
{
    let mut out: Vec<CloudGenerateResult> = Vec::new();
    let mut i: usize = 0;
    proof {
        assert(images@.take(0) =~= Seq::<String>::empty());
    }
    while i < images.len()
        invariant
            i <= images.len(),
            images.len() <= u32::MAX,
            out.len() == i,
            decoded_images(images@.take(i as int)) matches Ok(bs) && out.len() == bs.len() && forall|j: int|
                0 <= j < out.len() ==> (#[trigger] out[j]).image_bytes@ == bs[j] && out[j].index == j,
        decreases images.len() - i,
    {
        proof {
            assert(images@.take(i + 1).drop_last() =~= images@.take(i as int));
            assert(images@.take(i + 1).last() == images@[i as int]);
        }
        match base64_decode(images[i].as_str()) {
            Ok(bytes) => {
                let ghost prev = out@;
                let ghost b = bytes@;
                out.push(CloudGenerateResult { image_bytes: bytes, index: i as u32 });
                proof {
                    match decoded_images(images@.take(i as int)) {
                        Ok(bs) => {
                            assert(decoded_images(images@.take(i + 1)) == Ok::<Seq<Seq<u8>>, Seq<char>>(bs.push(b)));
                            assert forall|j: int| 0 <= j < out.len() implies (#[trigger] out[j]).image_bytes@ == bs.push(b)[j]
                                && out[j].index == j by {
                                if j < i {
                                    assert(out[j] == prev[j]);
                                }
                            }
                        },
                        Err(_) => {},
                    }
                }
            },
            Err(e) => {
                proof {
                    lemma_decoded_images_err_prefix(images@, (i + 1) as int);
                }
                return Err(e);
            },
        }
        i = i + 1;
    }
    proof {
        assert(images@.take(images.len() as int) =~= images@);
    }
    Ok(out)
}

/// Once a prefix fails to decode, so does the whole sequence, with the
/// same error.
proof fn lemma_decoded_images_err_prefix(texts: Seq<String>, k: int)
    requires
        0 <= k <= texts.len(),
        decoded_images(texts.take(k)) is Err,
    ensures
        decoded_images(texts) == decoded_images(texts.take(k)),
    decreases texts.len() - k,
{
    if k < texts.len() {
        assert(texts.take(k + 1).drop_last() =~= texts.take(k));
        lemma_decoded_images_err_prefix(texts, k + 1);
    } else {
        assert(texts.take(k) =~= texts);
    }
}

/// Downloaded images numbered in the order they came.
pub fn number_results(downloads: Vec<Vec<u8>>) -> (r: Vec<CloudGenerateResult>)
    requires
        downloads.len() <= u32::MAX,
    ensures
        r.len() == downloads.len(),
        forall|i: int| 0 <= i < r.len() ==> (#[trigger] r[i]).image_bytes@ == downloads[i]@ && r[i].index == i,
{
    let mut out: Vec<CloudGenerateResult> = Vec::new();
    let mut rest = downloads;
    let ghost all = rest@;
    let mut i: usize = 0;
    let n = rest.len();
    while i < n
        invariant
            n == all.len(),
            n <= u32::MAX,
            i <= n,
            rest@ == all.skip(i as int),
            out.len() == i,
            forall|j: int| 0 <= j < i ==> (#[trigger] out[j]).image_bytes@ == all[j]@ && out[j].index == j,
        decreases n - i,
    {
        let bytes = rest.remove(0);
        proof {
            assert(bytes == all[i as int]);
            assert(rest@ =~= all.skip(i + 1));
        }
        out.push(CloudGenerateResult { image_bytes: bytes, index: i as u32 });
        i = i + 1;
    }
    out
}

// ------------------------------------------------------------------
// Replicate
// ------------------------------------------------------------------

/// How many times a Replicate prediction is asked for before giving up,
/// two seconds apart.
pub const REPLICATE_POLL_LIMIT: u32 = 120;

/// What one reading of a Replicate prediction concludes.
#[derive(Debug)]
pub enum ReplicatePoll {
    /// Done: the URLs of the outputs.
    Succeeded(Vec<String>),
    /// Failed or canceled.
    Failed(AppError),
    /// Still running: wait and ask again.
    Running,
}

/// Reads the `status`, `output` and `error` of a Replicate prediction:
/// `succeeded` gives its outputs (none when absent), `failed` and
/// `canceled` an error with its message (`Unknown error` when absent),
/// any other status means it is still running.
pub fn replicate_poll_step(status: &str, output: Option<Vec<String>>, error: Option<String>) -> (r: ReplicatePoll)
    ensures
        status@ == "succeeded"@ ==> (r matches ReplicatePoll::Succeeded(urls) && urls@ == match output {
            Some(v) => v@,
            None => Seq::<String>::empty(),
        }),
        status@ != "succeeded"@ && (status@ == "failed"@ || status@ == "canceled"@) ==> (
            r matches ReplicatePoll::Failed(AppError::CloudApi(m)) && m@ == "Replicate prediction failed: "@
                + match error {
                Some(e) => e@,
                None => "Unknown error"@,
            }),
        status@ != "succeeded"@ && status@ != "failed"@ && status@ != "canceled"@ ==> r matches ReplicatePoll::Running,
{
    if str_eq(status, "succeeded") {
        match output {
            Some(v) => ReplicatePoll::Succeeded(v),
            None => ReplicatePoll::Succeeded(Vec::new()),
        }
    } else if str_eq(status, "failed") || str_eq(status, "canceled") {
        let detail = match error {
            Some(e) => e,
            None => message("Unknown error"),
        };
        ReplicatePoll::Failed(AppError::CloudApi(message_with("Replicate prediction failed: ", detail.as_str())))
    } else {
        ReplicatePoll::Running
    }
}

/// The error when a prediction never finished.
pub fn replicate_timeout_error() -> (e: AppError)
    ensures
        e matches AppError::CloudApi(m) && m@ == "Replicate prediction timed out"@,
{
    AppError::CloudApi(message("Replicate prediction timed out"))
}

// ------------------------------------------------------------------
// Requests
// ------------------------------------------------------------------

/// Where each service's connection is tested, and how its key is sent.
pub open spec fn connection_test_url_of(p: CloudApiProvider) -> Seq<char> {
    match p {
        CloudApiProvider::Pixellab => "https://api.pixellab.ai/v1/models"@,
        CloudApiProvider::FalAi => "https://fal.run/health"@,
        CloudApiProvider::Replicate => "https://api.replicate.com/v1/models"@,
    }
}

/// `Bearer {key}`, except fal.ai, which takes `Key {key}`.
pub open spec fn authorization_of(p: CloudApiProvider, key: Seq<char>) -> Seq<char> {
    match p {
        CloudApiProvider::FalAi => "Key "@ + key,
        _ => "Bearer "@ + key,
    }
}

impl CloudApiProvider {
    /// The URL that a connection test asks.
    pub fn connection_test_url(&self) -> (s: &'static str)
        ensures
            s@ == connection_test_url_of(*self),
    {
        match self {
            CloudApiProvider::Pixellab => "https://api.pixellab.ai/v1/models",
            CloudApiProvider::FalAi => "https://fal.run/health",
            CloudApiProvider::Replicate => "https://api.replicate.com/v1/models",
        }
    }

    /// The `Authorization` header that carries the API key.
    pub fn authorization(&self, api_key: &str) -> (s: String)
        ensures
            s@ == authorization_of(*self, api_key@),
    {
        match self {
            CloudApiProvider::FalAi => message_with("Key ", api_key),
            _ => message_with("Bearer ", api_key),
        }
    }
}

/// The URL at which a Replicate prediction is read.
pub fn replicate_prediction_url(prediction_id: &str) -> (s: String)
    ensures
        s@ == "https://api.replicate.com/v1/predictions/"@ + prediction_id@,
{
    message_with("https://api.replicate.com/v1/predictions/", prediction_id)
}

/// A reference image as fal.ai and Replicate take it: a PNG data URL.
pub fn png_data_url(base64_image: &str) -> (s: String)
    ensures
        s@ == "data:image/png;base64,"@ + base64_image@,
{
    message_with("data:image/png;base64,", base64_image)
}

} // verus!
