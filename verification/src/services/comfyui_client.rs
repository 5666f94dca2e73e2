//! The decisions of the ComfyUI client: the URLs it calls, how it encodes
//! names in them, when it retries, and how it reads a run's history.
use vstd::prelude::*;
use vstd::arithmetic::power2::pow2;
use vstd::string::StringSliceAdditionalSpecFns;
use crate::error::message_with;
use crate::text::{chars_of, decimal, push_char, str_eq, string_from_chars, u64_text};

verus! {

/// Bytes that a URL carries as they are: ASCII letters and digits, `-`,
/// `_`, `.` and `~`.
pub open spec fn is_unreserved(b: u8) -> bool {
    ||| 0x41 <= b <= 0x5A
    ||| 0x61 <= b <= 0x7A
    ||| 0x30 <= b <= 0x39
    ||| b == 0x2D || b == 0x5F || b == 0x2E || b == 0x7E
}

/// The upper-case hexadecimal digit of a value below 16.
pub open spec fn hex_digit(n: u8) -> char {
    if n < 10 { (0x30 + n) as char } else { (0x41 + n - 10) as char }
}

/// How one byte is written in a URL: as its character when unreserved,
/// else as `%` and two upper-case hexadecimal digits.
pub open spec fn encode_byte(b: u8) -> Seq<char> {
    if is_unreserved(b) {
        seq![b as char]
    } else {
        seq!['%', hex_digit(b / 16), hex_digit(b % 16)]
    }
}

/// The URL encoding of a byte string.
pub open spec fn url_encoded(bytes: Seq<u8>) -> Seq<char>
    decreases bytes.len(),
{
    if bytes.len() == 0 {
        Seq::empty()
    } else {
        url_encoded(bytes.drop_last()) + encode_byte(bytes.last())
    }
}

fn hex_char(n: u8) -> (c: char)
    requires
        n < 16,
    ensures
        c == hex_digit(n),
{
    if n < 10 { (0x30 + n) as char } else { (0x41 + n - 10) as char }
}

/// Percent-encodes the UTF-8 bytes of `s`, keeping unreserved bytes as
/// they are.
pub fn urlencoding_encode(s: &str) -> (r: String)
    ensures
        r@ == url_encoded(s.spec_bytes()),
{
    let bytes = s.as_bytes();
    let mut out = String::new();
    let mut i: usize = 0;
    proof {
        assert(bytes@.take(0) =~= Seq::<u8>::empty());
    }
    while i < bytes.len()
        invariant
            i <= bytes.len(),
            bytes@ == s.spec_bytes(),
            out@ == url_encoded(bytes@.take(i as int)),
        decreases bytes.len() - i,
    {
        let b = bytes[i];
        proof {
            assert(bytes@.take(i + 1).drop_last() =~= bytes@.take(i as int));
            assert(bytes@.take(i + 1).last() == b);
        }
        let unreserved = (0x41 <= b && b <= 0x5A) || (0x61 <= b && b <= 0x7A) || (0x30 <= b && b <= 0x39)
            || b == 0x2D || b == 0x5F || b == 0x2E || b == 0x7E;
        if unreserved {
            push_char(&mut out, b as char);
            proof {
                assert(out@ =~= url_encoded(bytes@.take(i as int)) + encode_byte(b));
            }
        } else {
            let ghost before = out@;
            push_char(&mut out, '%');
            push_char(&mut out, hex_char(b / 16));
            push_char(&mut out, hex_char(b % 16));
            proof {
                assert(out@ =~= before + encode_byte(b));
            }
        }
        i = i + 1;
    }
    proof {
        assert(bytes@.take(bytes.len() as int) =~= bytes@);
    }
    out
}

/// Text made only of unreserved bytes is carried unchanged.
pub proof fn lemma_unreserved_unchanged(bytes: Seq<u8>)
    requires
        forall|i: int| 0 <= i < bytes.len() ==> is_unreserved(#[trigger] bytes[i]),
    ensures
        url_encoded(bytes) == bytes.map_values(|b: u8| b as char),
    decreases bytes.len(),
{
    if bytes.len() > 0 {
        let prev = bytes.drop_last();
        assert forall|i: int| 0 <= i < prev.len() implies is_unreserved(#[trigger] prev[i]) by {
            assert(prev[i] == bytes[i]);
        }
        lemma_unreserved_unchanged(prev);
        assert(is_unreserved(bytes[bytes.len() - 1]));
        assert(bytes.map_values(|b: u8| b as char) =~= prev.map_values(|b: u8| b as char).push(bytes.last() as char));
    } else {
        assert(bytes.map_values(|b: u8| b as char) =~= Seq::<char>::empty());
    }
}

/// The endpoint without its trailing slashes.
pub open spec fn trim_trailing_slashes(s: Seq<char>) -> Seq<char>
    decreases s.len(),
{
    if s.len() > 0 && s.last() == '/' {
        trim_trailing_slashes(s.drop_last())
    } else {
        s
    }
}

/// The base URL of a ComfyUI server: the given endpoint without trailing
/// slashes (`str::trim_end_matches('/')`).
pub fn normalize_endpoint(endpoint: &str) -> (r: String)
    ensures
        r@ == trim_trailing_slashes(endpoint@),
{
    let v = chars_of(endpoint);
    let mut n: usize = v.len();
    proof {
        assert(v@.take(n as int) =~= v@);
    }
    while n > 0 && v[n - 1] == '/'
        invariant
            n <= v.len(),
            trim_trailing_slashes(endpoint@) == trim_trailing_slashes(v@.take(n as int)),
            v@ == endpoint@,
        decreases n,
    {
        proof {
            assert(v@.take(n as int).drop_last() =~= v@.take(n - 1));
        }
        n = n - 1;
    }
    let mut kept: Vec<char> = Vec::new();
    let mut i: usize = 0;
    while i < n
        invariant
            n <= v.len(),
            i <= n,
            kept@ == v@.take(i as int),
        decreases n - i,
    {
        kept.push(v[i]);
        proof {
            assert(v@.take(i + 1) =~= v@.take(i as int).push(v@[i as int]));
        }
        i = i + 1;
    }
    string_from_chars(&kept)
}

fn concat2(a: &str, b: &str) -> (r: String)
    ensures
        r@ == a@ + b@,
{
    let mut r = a.to_owned();
    r.append(b);
    r
}

fn concat3(a: &str, b: &str, c: &str) -> (r: String)
    ensures
        r@ == a@ + b@ + c@,
{
    let mut r = a.to_owned();
    r.append(b);
    r.append(c);
    r
}

/// `{endpoint}/system_stats`: where the server's health is asked.
pub fn system_stats_url(endpoint: &str) -> (r: String)
    ensures
        r@ == endpoint@ + "/system_stats"@,
{
    concat2(endpoint, "/system_stats")
}

/// `{endpoint}/upload/image`: where images are uploaded.
pub fn upload_url(endpoint: &str) -> (r: String)
    ensures
        r@ == endpoint@ + "/upload/image"@,
{
    concat2(endpoint, "/upload/image")
}

/// `{endpoint}/prompt`: where workflows are queued.
pub fn prompt_url(endpoint: &str) -> (r: String)
    ensures
        r@ == endpoint@ + "/prompt"@,
{
    concat2(endpoint, "/prompt")
}

/// `{endpoint}/history/{prompt_id}`: where a run's history is read.
pub fn history_url(endpoint: &str, prompt_id: &str) -> (r: String)
    ensures
        r@ == endpoint@ + "/history/"@ + prompt_id@,
{
    concat3(endpoint, "/history/", prompt_id)
}

/// `{endpoint}/object_info/{node_name}`: where a node's inputs are described.
pub fn object_info_url(endpoint: &str, node_name: &str) -> (r: String)
    ensures
        r@ == endpoint@ + "/object_info/"@ + node_name@,
{
    concat3(endpoint, "/object_info/", node_name)
}

/// `{endpoint}/view?filename={f}&subfolder={s}&type=output`, with the file
/// name and subfolder URL-encoded: where a result image is downloaded.
pub fn view_url(endpoint: &str, filename: &str, subfolder: &str) -> (r: String)
    ensures
        r@ == endpoint@ + "/view?filename="@ + url_encoded(filename.spec_bytes()) + "&subfolder="@
            + url_encoded(subfolder.spec_bytes()) + "&type=output"@,
{
    let f = urlencoding_encode(filename);
    let s = urlencoding_encode(subfolder);
    let mut r = endpoint.to_owned();
    r.append("/view?filename=");
    r.append(f.as_str());
    r.append("&subfolder=");
    r.append(s.as_str());
    r.append("&type=output");
    r
}

/// How many times an operation is tried, and the delay before the first retry.
#[derive(Debug, Clone, Copy, PartialEq, Eq, Structural)]
pub struct RetryPolicy {
    pub max_attempts: u32,
    pub base_delay_ms: u64,
}

/// What to do after a failed attempt.
#[derive(Debug, Clone, Copy, PartialEq, Eq, Structural)]
pub enum RetryStep {
    /// Wait this long, then try again.
    Retry { delay_ms: u128 },
    /// Stop and report the last failure.
    GiveUp,
}

/// The policy of the ComfyUI client: `max_retries` retries after the first
/// attempt, waiting 1 s, 2 s, 4 s, ... between them.
pub fn comfyui_retry_policy(max_retries: u32) -> (p: RetryPolicy)
    requires
        max_retries < u32::MAX,
    ensures
        p.max_attempts == max_retries + 1,
        p.base_delay_ms == 1000,
{
    RetryPolicy { max_attempts: max_retries + 1, base_delay_ms: 1000 }
}

/// After attempt number `attempt` (from 0) has failed: retry after
/// base × 2^attempt ms while attempts remain, else give up. The power of
/// two is a `u64`, so a retry after attempt 64 or later has no delay.
pub fn after_failure(policy: RetryPolicy, attempt: u32) -> (s: RetryStep)
    requires
        attempt + 1 < policy.max_attempts ==> attempt < 64,
    ensures
        attempt + 1 < policy.max_attempts ==> s == (RetryStep::Retry {
            delay_ms: (policy.base_delay_ms * pow2(attempt as nat)) as u128,
        }),
        attempt + 1 >= policy.max_attempts ==> s == RetryStep::GiveUp,
{
    if (attempt as u64) + 1 < policy.max_attempts as u64 {
        let mut delay: u128 = policy.base_delay_ms as u128;
        let mut k: u32 = 0;
        let ghost b = policy.base_delay_ms as int;
        proof {
            vstd::arithmetic::power2::lemma2_to64();
            vstd::arithmetic::power2::lemma_pow2_strictly_increases(attempt as nat, 64);
            assert(b * pow2(attempt as nat) <= u128::MAX) by (nonlinear_arith)
                requires
                    0 <= b <= u64::MAX,
                    0 <= pow2(attempt as nat) <= u64::MAX,
            ;
            assert(pow2(0) == 1);
        }
        while k < attempt
            invariant
                k <= attempt,
                b == policy.base_delay_ms,
                delay == b * pow2(k as nat),
                b * pow2(attempt as nat) <= u128::MAX,
            decreases attempt - k,
        {
            proof {
                vstd::arithmetic::power2::lemma_pow2_unfold((k + 1) as nat);
                if k + 1 < attempt {
                    vstd::arithmetic::power2::lemma_pow2_strictly_increases((k + 1) as nat, attempt as nat);
                }
                assert(b * pow2((k + 1) as nat) <= b * pow2(attempt as nat)) by (nonlinear_arith)
                    requires
                        b >= 0,
                        pow2((k + 1) as nat) <= pow2(attempt as nat);
                assert(b * pow2((k + 1) as nat) == (b * pow2(k as nat)) * 2) by (nonlinear_arith)
                    requires
                        pow2((k + 1) as nat) == 2 * pow2(k as nat);
            }
            delay = delay * 2;
            k = k + 1;
        }
        RetryStep::Retry { delay_ms: delay }
    } else {
        RetryStep::GiveUp
    }
}

/// Each wait before a retry is twice the one before it.
pub proof fn lemma_retry_delays_double(policy: RetryPolicy, attempt: nat)
    ensures
        policy.base_delay_ms * pow2(attempt + 1) == 2 * (policy.base_delay_ms * pow2(attempt)),
{
    vstd::arithmetic::power2::lemma_pow2_unfold(attempt + 1);
    let b = policy.base_delay_ms as int;
    assert(b * pow2(attempt + 1) == 2 * (b * pow2(attempt))) by (nonlinear_arith)
        requires
            pow2(attempt + 1) == 2 * pow2(attempt),
    ;
}

/// What a run's history says about it, as read from the server's answer.
#[derive(Debug)]
pub struct HistoryEntry {
    /// The history holds an entry for the run.
    pub present: bool,
    /// The entry has a status object.
    pub has_status: bool,
    /// The status's `completed` flag, when it is a boolean.
    pub completed: Option<bool>,
    /// The status's `status_str`, when it is a string.
    pub status_str: Option<String>,
}

/// What waiting for a run concludes from one reading of its history.
#[derive(Debug, Clone, Copy, PartialEq, Eq, Structural)]
pub enum CompletionCheck {
    /// The run completed; its history entry is the result.
    Finished,
    /// The run completed with an error.
    Failed,
    /// Not completed yet: wait and read again.
    Pending,
}

/// A run is finished once its entry has a status whose `completed` is true;
/// it failed if its `status_str` is then `"error"`.
pub open spec fn completion_of(e: HistoryEntry) -> CompletionCheck {
    if e.present && e.has_status && e.completed == Some(true) {
        match e.status_str {
            Some(s) => if s@ == "error"@ { CompletionCheck::Failed } else { CompletionCheck::Finished },
            None => CompletionCheck::Finished,
        }
    } else {
        CompletionCheck::Pending
    }
}

/// Reads one answer of the server about a run.
pub fn check_completion(entry: &HistoryEntry) -> (c: CompletionCheck)
    ensures
        c == completion_of(*entry),
{
    if entry.present && entry.has_status && entry.completed == Some(true) {
        match &entry.status_str {
            Some(s) => {
                if str_eq(s.as_str(), "error") {
                    CompletionCheck::Failed
                } else {
                    CompletionCheck::Finished
                }
            },
            None => CompletionCheck::Finished,
        }
    } else {
        CompletionCheck::Pending
    }
}

/// A file that ComfyUI reports after an upload.
#[derive(Debug)]
pub struct UploadResult {
    pub name: String,
    pub subfolder: String,
    pub image_type: Option<String>,
}

/// An image that a run produced.
#[derive(Debug)]
pub struct OutputImage {
    pub filename: String,
    pub subfolder: String,
    pub image_type: Option<String>,
}

// ------------------------------------------------------------------
// The client
// ------------------------------------------------------------------

/// A lower-case hexadecimal digit.
pub open spec fn is_lower_hex(c: char) -> bool {
    ('0' <= c && c <= '9') || ('a' <= c && c <= 'f')
}

/// The hyphenated text of a random (version 4) UUID:
/// `xxxxxxxx-xxxx-4xxx-yxxx-xxxxxxxxxxxx` in lower-case hexadecimal.
pub open spec fn is_v4_uuid_text(s: Seq<char>) -> bool {
    &&& s.len() == 36
    &&& forall|i: int| 0 <= i < 36 ==> if i == 8 || i == 13 || i == 18 || i == 23 {
        s[i] == '-'
    } else {
        is_lower_hex(#[trigger] s[i])
    }
    &&& s[14] == '4'
    &&& (s[19] == '8' || s[19] == '9' || s[19] == 'a' || s[19] == 'b')
}

/// Calls `uuid::Uuid::new_v4` and writes it with `to_string`: a random
/// UUID in its hyphenated lower-case form. Which one it is, nothing states.
#[verifier::external_body]
fn new_client_id() -> (id: String)
    ensures
        is_v4_uuid_text(id@),
{
    uuid::Uuid::new_v4().to_string()
}

/// Where a ComfyUI server is and who is asking: the base URL without
/// trailing slashes, and a random client identifier.
#[derive(Debug)]
pub struct ComfyUIClient {
    pub endpoint: String,
    pub client_id: String,
}

impl ComfyUIClient {
    /// A client of the server at `endpoint`, with a fresh identifier.
    pub fn new(endpoint: &str) -> (c: ComfyUIClient)
        ensures
            c.endpoint@ == trim_trailing_slashes(endpoint@),
            is_v4_uuid_text(c.client_id@),
    {
        ComfyUIClient { endpoint: normalize_endpoint(endpoint), client_id: new_client_id() }
    }
}

/// Whether waiting for a run has taken longer than its limit.
pub fn is_timed_out(elapsed_ms: u128, timeout_secs: u64) -> (b: bool)
    ensures
        b == (elapsed_ms > timeout_secs * 1000),
{
    elapsed_ms > (timeout_secs as u128) * 1000
}

/// The error of a run that did not finish in time.
pub fn timeout_message(timeout_secs: u64, prompt_id: &str) -> (m: String)
    ensures
        m@ == "Timeout waiting for ComfyUI completion ("@ + decimal(timeout_secs as nat) + "s): "@ + prompt_id@,
{
    let secs = u64_text(timeout_secs);
    let mut m = message_with("Timeout waiting for ComfyUI completion (", secs.as_str());
    m.append("s): ");
    m.append(prompt_id);
    m
}

/// The error of a run that ComfyUI reported as failed.
pub fn failed_run_message(prompt_id: &str) -> (m: String)
    ensures
        m@ == "ComfyUI processing failed for prompt: "@ + prompt_id@,
{
    message_with("ComfyUI processing failed for prompt: ", prompt_id)
}

} // verus!
