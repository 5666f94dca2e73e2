//! The logic of the ComfyUI commands: filling a workflow's placeholders,
//! finding the images a run produced, and planning a batch over sprites.
use vstd::prelude::*;
use crate::error::{message, message_with, AppError};
use crate::text::{
    ascii_lower, chars_of, contains_seq, occurs_at, decimal, i64_text, is_ascii_digit, is_blank, is_blank_str,
    signed_decimal, string_from_chars, to_ascii_lower, u64_text,
};

verus! {

// ------------------------------------------------------------------
// Number syntax
// ------------------------------------------------------------------

pub open spec fn is_sign(c: char) -> bool {
    c == '+' || c == '-'
}

/// Where the run of decimal digits that starts at `i` ends.
pub open spec fn digits_end(s: Seq<char>, i: int) -> int
    decreases s.len() - i,
{
    if 0 <= i < s.len() && is_ascii_digit(s[i]) {
        digits_end(s, i + 1)
    } else {
        i
    }
}

/// `s[i..]` is an exponent: `e` or `E`, an optional sign, and one or more
/// digits up to the end.
pub open spec fn exponent_at(s: Seq<char>, i: int) -> bool {
    &&& 0 <= i < s.len()
    &&& (s[i] == 'e' || s[i] == 'E')
    &&& {
        let j = if i + 1 < s.len() && is_sign(s[i + 1]) { i + 2 } else { i + 1 };
        digits_end(s, j) > j && digits_end(s, j) == s.len()
    }
}

/// `s[i..]` is a decimal number: digits, an optional point and more
/// digits, at least one digit in all, then an optional exponent.
pub open spec fn decimal_at(s: Seq<char>, i: int) -> bool {
    let a = digits_end(s, i);
    let has_point = a < s.len() && s[a] == '.';
    let m = if has_point { digits_end(s, a + 1) } else { a };
    let n_digits = if has_point { (a - i) + (m - a - 1) } else { a - i };
    n_digits > 0 && (m == s.len() || exponent_at(s, m))
}

/// `s[i..]` spells `inf`, `infinity` or `nan`, ignoring ASCII case.
pub open spec fn special_at(s: Seq<char>, i: int) -> bool {
    let rest = s.skip(i).map_values(|c: char| ascii_lower(c));
    rest == seq!['i', 'n', 'f'] || rest == seq!['i', 'n', 'f', 'i', 'n', 'i', 't', 'y']
        || rest == seq!['n', 'a', 'n']
}

/// The strings that `str::parse::<f64>` accepts: an optional sign, then
/// `inf`, `infinity` or `nan` in any case, or a decimal number.
pub open spec fn float_syntax(s: Seq<char>) -> bool {
    let i: int = if s.len() > 0 && is_sign(s[0]) { 1 } else { 0 };
    special_at(s, i) || decimal_at(s, i)
}

/// The strings that `str::parse::<i64>` reads as a number of some size:
/// an optional sign and one or more digits.
pub open spec fn integer_syntax(s: Seq<char>) -> bool {
    let i: int = if s.len() > 0 && is_sign(s[0]) { 1 } else { 0 };
    digits_end(s, i) > i && digits_end(s, i) == s.len()
}

/// Every integer is also read as a float, so a value is numeric exactly
/// when it has the float syntax.
pub proof fn lemma_integer_is_float(s: Seq<char>)
    requires
        integer_syntax(s),
    ensures
        float_syntax(s),
{
    let i: int = if s.len() > 0 && is_sign(s[0]) { 1 } else { 0 };
    let a = digits_end(s, i);
    assert(a == s.len());
    assert(decimal_at(s, i));
}

fn digits_end_exec(v: &Vec<char>, i: usize) -> (r: usize)
    requires
        i <= v.len(),
    ensures
        r == digits_end(v@, i as int),
        i <= r <= v.len(),
{
    let mut j = i;
    while j < v.len() && '0' <= v[j] && v[j] <= '9'
        invariant
            i <= j <= v.len(),
            digits_end(v@, j as int) == digits_end(v@, i as int),
        decreases v.len() - j,
    {
        j = j + 1;
    }
    j
}

fn spells_from(v: &Vec<char>, i: usize, word: &str) -> (r: bool)
    requires
        i <= v.len(),
    ensures
        r == (v@.skip(i as int).map_values(|c: char| ascii_lower(c)) == word@),
{
    let w = chars_of(word);
    let ghost rest = v@.skip(i as int).map_values(|c: char| ascii_lower(c));
    if v.len() - i != w.len() {
        proof {
            assert(rest.len() != w@.len());
        }
        return false;
    }
    let mut k: usize = 0;
    while k < w.len()
        invariant
            i + w.len() == v.len(),
            k <= w.len(),
            rest == v@.skip(i as int).map_values(|c: char| ascii_lower(c)),
            w@ == word@,
            forall|j: int| 0 <= j < k ==> rest[j] == w@[j],
        decreases w.len() - k,
    {
        if to_ascii_lower(v[i + k]) != w[k] {
            proof {
                assert(rest[k as int] != w@[k as int]);
            }
            return false;
        }
        k = k + 1;
    }
    proof {
        assert(rest =~= w@);
    }
    true
}

/// Whether `s` is a number, as the workflow's numeric placeholders need:
/// true when `s.parse::<f64>()` or `s.parse::<i64>()` succeeds.
pub fn is_numeric_value(s: &str) -> (r: bool)
    ensures
        r == float_syntax(s@),
        integer_syntax(s@) ==> r,
{
    proof {
        if integer_syntax(s@) {
            lemma_integer_is_float(s@);
        }
    }
    let v = chars_of(s);
    let i: usize = if v.len() > 0 && (v[0] == '+' || v[0] == '-') { 1 } else { 0 };
    proof {
        reveal_strlit("inf");
        reveal_strlit("infinity");
        reveal_strlit("nan");
        assert("inf"@ =~= seq!['i', 'n', 'f']);
        assert("infinity"@ =~= seq!['i', 'n', 'f', 'i', 'n', 'i', 't', 'y']);
        assert("nan"@ =~= seq!['n', 'a', 'n']);
    }
    if spells_from(&v, i, "inf") || spells_from(&v, i, "infinity") || spells_from(&v, i, "nan") {
        return true;
    }
    let a = digits_end_exec(&v, i);
    let has_point = a < v.len() && v[a] == '.';
    let m = if has_point { digits_end_exec(&v, a + 1) } else { a };
    let n_digits = if has_point { (a - i) + (m - a - 1) } else { a - i };
    if n_digits == 0 {
        return false;
    }
    if m == v.len() {
        return true;
    }
    if !(v[m] == 'e' || v[m] == 'E') {
        return false;
    }
    let j: usize = if m + 1 < v.len() && (v[m + 1] == '+' || v[m + 1] == '-') { m + 2 } else { m + 1 };
    let k = digits_end_exec(&v, j);
    k > j && k == v.len()
}

// ------------------------------------------------------------------
// Placeholders
// ------------------------------------------------------------------

/// `str::replace`: every occurrence of `pat`, taken from left to right
/// without overlap, replaced by `rep`.
pub open spec fn replace_all(s: Seq<char>, pat: Seq<char>, rep: Seq<char>) -> Seq<char>
    decreases s.len(),
{
    if pat.len() == 0 || s.len() < pat.len() {
        s
    } else if s.take(pat.len() as int) == pat {
        rep + replace_all(s.skip(pat.len() as int), pat, rep)
    } else {
        seq![s[0]] + replace_all(s.skip(1), pat, rep)
    }
}

/// Where nothing matches at the front, the first character is kept.
proof fn lemma_replace_step_keep(s: Seq<char>, pat: Seq<char>, rep: Seq<char>, i: int)
    requires
        pat.len() > 0,
        0 <= i < s.len(),
        !(i + pat.len() <= s.len() && s.subrange(i, i + pat.len()) == pat),
    ensures
        replace_all(s.skip(i), pat, rep) == seq![s[i]] + replace_all(s.skip(i + 1), pat, rep),
{
    let t = s.skip(i);
    assert(t.skip(1) =~= s.skip(i + 1));
    if t.len() >= pat.len() {
        assert(t.take(pat.len() as int) =~= s.subrange(i, i + pat.len()));
    } else {
        assert(s.skip(i + 1).len() < pat.len());
        assert(t =~= seq![s[i]] + s.skip(i + 1));
    }
}

/// Where `pat` matches at the front, it is replaced and skipped.
proof fn lemma_replace_step_match(s: Seq<char>, pat: Seq<char>, rep: Seq<char>, i: int)
    requires
        pat.len() > 0,
        0 <= i,
        i + pat.len() <= s.len(),
        s.subrange(i, i + pat.len()) == pat,
    ensures
        replace_all(s.skip(i), pat, rep) == rep + replace_all(s.skip(i + pat.len()), pat, rep),
{
    let t = s.skip(i);
    assert(t.take(pat.len() as int) =~= s.subrange(i, i + pat.len()));
    assert(t.skip(pat.len() as int) =~= s.skip(i + pat.len()));
}

fn append_chars(out: &mut Vec<char>, more: &Vec<char>)
    ensures
        final(out)@ == old(out)@ + more@,
{
    let ghost start = out@;
    let mut k: usize = 0;
    while k < more.len()
        invariant
            k <= more.len(),
            out@ == start + more@.take(k as int),
        decreases more.len() - k,
    {
        out.push(more[k]);
        proof {
            assert(more@.take(k + 1) =~= more@.take(k as int).push(more@[k as int]));
        }
        k = k + 1;
    }
    proof {
        assert(more@.take(more.len() as int) =~= more@);
    }
}

fn replace_all_chars(v: &Vec<char>, pat: &Vec<char>, rep: &Vec<char>) -> (r: Vec<char>)
    requires
        pat.len() > 0,
    ensures
        r@ == replace_all(v@, pat@, rep@),
{
    let mut out: Vec<char> = Vec::new();
    let mut i: usize = 0;
    proof {
        assert(v@.skip(0) =~= v@);
    }
    while i < v.len()
        invariant
            pat.len() > 0,
            i <= v.len(),
            out@ + replace_all(v@.skip(i as int), pat@, rep@) == replace_all(v@, pat@, rep@),
        decreases v.len() - i,
    {
        if crate::text::occurs_at_exec(v, pat, i) {
            proof {
                lemma_replace_step_match(v@, pat@, rep@, i as int);
                assert(out@ + rep@ + replace_all(v@.skip(i + pat.len()), pat@, rep@)
                    =~= out@ + (rep@ + replace_all(v@.skip(i + pat.len()), pat@, rep@)));
            }
            append_chars(&mut out, rep);
            i = i + pat.len();
        } else {
            proof {
                lemma_replace_step_keep(v@, pat@, rep@, i as int);
                assert(out@.push(v@[i as int]) + replace_all(v@.skip(i + 1), pat@, rep@)
                    =~= out@ + (seq![v@[i as int]] + replace_all(v@.skip(i + 1), pat@, rep@)));
            }
            out.push(v[i]);
            i = i + 1;
        }
    }
    proof {
        assert(v@.skip(i as int).len() == 0);
        assert(out@ + Seq::<char>::empty() =~= out@);
    }
    out
}

/// The placeholder of a key: `{{key}}`.
pub open spec fn placeholder(key: Seq<char>) -> Seq<char> {
    seq!['{', '{'] + key + seq!['}', '}']
}

/// A placeholder in quotes: `"{{key}}"`.
pub open spec fn quoted(p: Seq<char>) -> Seq<char> {
    seq!['"'] + p + seq!['"']
}

/// One replacement: a numeric value first replaces the quoted
/// placeholder, quotes and all, so that it becomes a JSON number; then
/// every bare placeholder is replaced.
pub open spec fn apply_replacement(text: Seq<char>, key: Seq<char>, value: Seq<char>) -> Seq<char> {
    let ph = placeholder(key);
    let unquoted = if float_syntax(value) { replace_all(text, quoted(ph), value) } else { text };
    replace_all(unquoted, ph, value)
}

/// The replacements applied one after another, in order.
pub open spec fn apply_replacements(text: Seq<char>, reps: Seq<(Seq<char>, Seq<char>)>) -> Seq<char>
    decreases reps.len(),
{
    if reps.len() == 0 {
        text
    } else {
        apply_replacement(apply_replacements(text, reps.drop_last()), reps.last().0, reps.last().1)
    }
}

/// The key-value pairs as character sequences.
pub open spec fn pairs_view(v: Seq<(String, String)>) -> Seq<(Seq<char>, Seq<char>)> {
    v.map_values(|p: (String, String)| (p.0@, p.1@))
}

fn placeholder_chars(key: &String) -> (r: Vec<char>)
    ensures
        r@ == placeholder(key@),
{
    let mut r: Vec<char> = Vec::new();
    r.push('{');
    r.push('{');
    let k = chars_of(key.as_str());
    append_chars(&mut r, &k);
    r.push('}');
    r.push('}');
    proof {
        assert(r@ =~= placeholder(key@));
    }
    r
}

/// The pairs, taken in some order: the replacements are a map, and the
/// order in which its entries are applied is left open.
pub open spec fn is_application_order(order: Seq<(Seq<char>, Seq<char>)>, reps: Seq<(Seq<char>, Seq<char>)>) -> bool {
    order.to_multiset() == reps.to_multiset()
}

/// `r` is the text with every pair applied, in some order of the pairs.
pub open spec fn filled_in_some_order(text: Seq<char>, reps: Seq<(Seq<char>, Seq<char>)>, r: Seq<char>) -> bool {
    exists|order: Seq<(Seq<char>, Seq<char>)>| #[trigger] is_application_order(order, reps)
        && r == apply_replacements(text, order)
}

/// Applies the pairs in the order they are listed.
fn fill_in_order(template: &str, replacements: &Vec<(String, String)>) -> (r: String)
    ensures
        r@ == apply_replacements(template@, pairs_view(replacements@)),
        filled_in_some_order(template@, pairs_view(replacements@), r@),
{
    let mut text = chars_of(template);
    let mut i: usize = 0;
    proof {
        assert(pairs_view(replacements@).take(0) =~= Seq::<(Seq<char>, Seq<char>)>::empty());
    }
    while i < replacements.len()
        invariant
            i <= replacements.len(),
            text@ == apply_replacements(template@, pairs_view(replacements@).take(i as int)),
        decreases replacements.len() - i,
    {
        let key = &replacements[i].0;
        let value = &replacements[i].1;
        let ph = placeholder_chars(key);
        let mut q: Vec<char> = Vec::new();
        q.push('"');
        append_chars(&mut q, &ph);
        q.push('"');
        proof {
            assert(q@ =~= quoted(placeholder(key@)));
        }
        let val = chars_of(value.as_str());
        let unquoted = if is_numeric_value(value.as_str()) {
            replace_all_chars(&text, &q, &val)
        } else {
            text
        };
        text = replace_all_chars(&unquoted, &ph, &val);
        proof {
            let reps = pairs_view(replacements@);
            assert(reps.take(i + 1).drop_last() =~= reps.take(i as int));
            assert(reps.take(i + 1).last() == (key@, value@));
        }
        i = i + 1;
    }
    proof {
        assert(pairs_view(replacements@).take(replacements.len() as int) =~= pairs_view(replacements@));
        assert(is_application_order(pairs_view(replacements@), pairs_view(replacements@)));
    }
    string_from_chars(&text)
}

/// Fills the `{{key}}` placeholders of a workflow template with the values
/// of a map of replacements, one entry after another in an order left
/// open. A numeric value also replaces a quoted placeholder with its
/// quotes, so that `"{{steps}}"` becomes the number `30`.
pub fn replace_template_placeholders(template: &str, replacements: &Vec<(String, String)>) -> (r: String)
    ensures
        filled_in_some_order(template@, pairs_view(replacements@), r@),
{
    fill_in_order(template, replacements)
}

/// What `serde_json::from_str::<serde_json::Value>` makes of a text:
/// `Ok` with whether the value is a JSON object, or `Err` with the
/// parser's message. It depends on the text alone.
pub uninterp spec fn json_reading(text: Seq<char>) -> Result<bool, Seq<char>>;

/// Whether a text is one JSON value.
pub open spec fn parses_as_json(text: Seq<char>) -> bool {
    json_reading(text) is Ok
}

/// Calls `serde_json::from_str::<serde_json::Value>`: on success, whether
/// the value is an object (`Value::is_object`); on failure, the error's
/// text. The result is `json_reading` of the text.
#[verifier::external_body]
pub(crate) fn read_json(text: &str) -> (r: Result<bool, String>)
    ensures
        match r {
            Ok(b) => json_reading(text@) == Ok::<bool, Seq<char>>(b),
            Err(m) => json_reading(text@) == Err::<bool, Seq<char>>(m@),
        },
{
    match serde_json::from_str::<serde_json::Value>(text) {
        Ok(v) => Ok(v.is_object()),
        Err(e) => Err(e.to_string()),
    }
}

/// The workflow filled in one application order: the filled text when it
/// is still valid JSON, else the workflow as it was.
pub open spec fn filled_workflow(workflow: Seq<char>, order: Seq<(Seq<char>, Seq<char>)>) -> Seq<char> {
    let filled = apply_replacements(workflow, order);
    if parses_as_json(filled) { filled } else { workflow }
}

/// Fills the placeholders of a workflow given as JSON text, the entries of
/// the map of replacements applied in an order left open. When the filled
/// text is no longer valid JSON, the workflow is returned as it was.
pub fn replace_placeholders(workflow_json: &str, replacements: &Vec<(String, String)>) -> (r: String)
    ensures
        exists|order: Seq<(Seq<char>, Seq<char>)>| #[trigger] is_application_order(order, pairs_view(replacements@))
            && r@ == filled_workflow(workflow_json@, order),
{
    let filled = fill_in_order(workflow_json, replacements);
    let r = match read_json(filled.as_str()) {
        Ok(_) => filled,
        Err(_) => workflow_json.to_owned(),
    };
    proof {
        assert(is_application_order(pairs_view(replacements@), pairs_view(replacements@)));
        assert(r@ == filled_workflow(workflow_json@, pairs_view(replacements@)));
    }
    r
}

// ------------------------------------------------------------------
// Workflows
// ------------------------------------------------------------------

/// Checks a workflow given as JSON text, as importing and updating one
/// does: the name must hold more than whitespace, the text must parse,
/// and the value must be an object.
pub fn check_workflow_input(name: &str, json: &str) -> (r: Result<(), AppError>)
    ensures
        is_blank(name@) ==> (r matches Err(AppError::Validation(m)) && m@ == "Workflow name is required"@),
        !is_blank(name@) ==> match json_reading(json@) {
            Err(msg) => r matches Err(AppError::Validation(m)) && m@ == "Invalid JSON: "@ + msg,
            Ok(true) => r is Ok,
            Ok(false) => r matches Err(AppError::Validation(m)) && m@ == "Workflow JSON must be an object"@,
        },
{
    if is_blank_str(name) {
        return Err(AppError::Validation(message("Workflow name is required")));
    }
    match read_json(json) {
        Err(msg) => Err(AppError::Validation(message_with("Invalid JSON: ", msg.as_str()))),
        Ok(true) => Ok(()),
        Ok(false) => Err(AppError::Validation(message("Workflow JSON must be an object"))),
    }
}

/// Checks a new workflow whose JSON value arrives already parsed, here as
/// its JSON text: a name, and an object.
pub fn check_new_workflow(name: &str, json: &str) -> (r: Result<(), AppError>)
    ensures
        is_blank(name@) ==> (r matches Err(AppError::Validation(m)) && m@ == "Workflow name is required"@),
        !is_blank(name@) ==> (if json_reading(json@) == Ok::<bool, Seq<char>>(true) {
            r is Ok
        } else {
            r matches Err(AppError::Validation(m)) && m@ == "workflow_json must be a JSON object"@
        }),
{
    if is_blank_str(name) {
        return Err(AppError::Validation(message("Workflow name is required")));
    }
    match read_json(json) {
        Ok(true) => Ok(()),
        _ => Err(AppError::Validation(message("workflow_json must be a JSON object"))),
    }
}

/// Replacing a pattern that does not occur changes nothing.
pub proof fn lemma_replace_absent(s: Seq<char>, pat: Seq<char>, rep: Seq<char>)
    requires
        !contains_seq(s, pat),
    ensures
        replace_all(s, pat, rep) == s,
    decreases s.len(),
{
    if pat.len() == 0 || s.len() < pat.len() {
    } else {
        assert(!occurs_at(s, pat, 0));
        assert(s.subrange(0, pat.len() as int) =~= s.take(pat.len() as int));
        let t = s.skip(1);
        assert forall|j: int| !occurs_at(t, pat, j) by {
            if occurs_at(t, pat, j) {
                assert(s.subrange(j + 1, j + 1 + pat.len()) =~= t.subrange(j, j + pat.len()));
                assert(occurs_at(s, pat, j + 1));
            }
        }
        lemma_replace_absent(t, pat, rep);
        assert(seq![s[0]] + t =~= s);
    }
}

/// A text in which no key's placeholder occurs comes out of the
/// replacements unchanged: placeholders of unknown keys stay as they are,
/// and so does a template with no placeholders at all.
pub proof fn lemma_fill_without_placeholders(text: Seq<char>, reps: Seq<(Seq<char>, Seq<char>)>)
    requires
        forall|k: int| 0 <= k < reps.len() ==> !contains_seq(text, placeholder(#[trigger] reps[k].0)),
    ensures
        apply_replacements(text, reps) == text,
    decreases reps.len(),
{
    if reps.len() > 0 {
        let prev = reps.drop_last();
        assert forall|k: int| 0 <= k < prev.len() implies !contains_seq(text, placeholder(#[trigger] prev[k].0)) by {
            assert(prev[k] == reps[k]);
        }
        lemma_fill_without_placeholders(text, prev);
        let key = reps.last().0;
        let value = reps.last().1;
        let ph = placeholder(key);
        assert(!contains_seq(text, placeholder(reps[reps.len() - 1].0)));
        assert forall|i: int| !occurs_at(text, quoted(ph), i) by {
            if occurs_at(text, quoted(ph), i) {
                assert(text.subrange(i + 1, i + 1 + ph.len()) =~= text.subrange(i, i + quoted(ph).len()).subrange(1, 1 + ph.len() as int));
                assert(quoted(ph).subrange(1, 1 + ph.len() as int) =~= ph);
                assert(occurs_at(text, ph, i + 1));
            }
        }
        lemma_replace_absent(text, quoted(ph), value);
        lemma_replace_absent(text, ph, value);
    }
}

/// Whatever order the replacements are applied in, a text in which no
/// key's placeholder occurs comes out unchanged.
pub proof fn lemma_unknown_placeholders_kept(text: Seq<char>, reps: Seq<(Seq<char>, Seq<char>)>, r: Seq<char>)
    requires
        forall|k: int| 0 <= k < reps.len() ==> !contains_seq(text, placeholder(#[trigger] reps[k].0)),
        filled_in_some_order(text, reps, r),
    ensures
        r == text,
{
    let order = choose|order: Seq<(Seq<char>, Seq<char>)>| #[trigger] is_application_order(order, reps)
        && r == apply_replacements(text, order);
    order.to_multiset_ensures();
    reps.to_multiset_ensures();
    assert forall|k: int| 0 <= k < order.len() implies !contains_seq(text, placeholder(#[trigger] order[k].0)) by {
        assert(order.contains(order[k]));
        assert(order.to_multiset().count(order[k]) > 0);
        assert(reps.to_multiset().count(order[k]) > 0);
        assert(reps.contains(order[k]));
        let j = choose|j: int| 0 <= j < reps.len() && reps[j] == order[k];
        assert(!contains_seq(text, placeholder(reps[j].0)));
    }
    lemma_fill_without_placeholders(text, order);
}

// ------------------------------------------------------------------
// Run results
// ------------------------------------------------------------------

/// One image in a run's history: its `filename` and `subfolder` when
/// they are strings.
#[derive(Debug)]
pub struct HistoryImage {
    pub filename: Option<String>,
    pub subfolder: Option<String>,
}

/// The output of one node in a run's history: its `images` when they
/// are an array.
#[derive(Debug)]
pub struct HistoryNodeOutput {
    pub images: Option<Vec<HistoryImage>>,
}

/// The `(filename, subfolder)` of an image, the subfolder empty when
/// absent; nothing without a file name.
pub open spec fn image_ref(img: HistoryImage) -> Option<(Seq<char>, Seq<char>)> {
    match img.filename {
        Some(f) => Some((f@, match img.subfolder { Some(d) => d@, None => Seq::<char>::empty() })),
        None => None,
    }
}

/// The first image of the first node that has one; the search ends there,
/// also when that image has no file name.
pub open spec fn first_output_image(nodes: Seq<HistoryNodeOutput>) -> Option<(Seq<char>, Seq<char>)>
    decreases nodes.len(),
{
    if nodes.len() == 0 {
        None
    } else if nodes[0].images is Some && nodes[0].images->0@.len() > 0 {
        image_ref(nodes[0].images->0@[0])
    } else {
        first_output_image(nodes.drop_first())
    }
}

fn image_pair(img: &HistoryImage) -> (r: Option<(String, String)>)
    ensures
        match r {
            Some(p) => image_ref(*img) == Some((p.0@, p.1@)),
            None => image_ref(*img) is None,
        },
{
    match &img.filename {
        Some(f) => {
            let sub = match &img.subfolder {
                Some(d) => d.clone(),
                None => String::new(),
            };
            Some((f.clone(), sub))
        },
        None => None,
    }
}

/// The `(filename, subfolder)` of the image that a ComfyUI run produced,
/// as the batch command reads it from the run's outputs, node by node.
pub fn find_output_image(outputs: &Vec<HistoryNodeOutput>) -> (r: Option<(String, String)>)
    ensures
        match r {
            Some(p) => first_output_image(outputs@) == Some((p.0@, p.1@)),
            None => first_output_image(outputs@) is None,
        },
{
    let mut i: usize = 0;
    proof {
        assert(outputs@.skip(0) =~= outputs@);
    }
    while i < outputs.len()
        invariant
            i <= outputs.len(),
            first_output_image(outputs@.skip(i as int)) == first_output_image(outputs@),
        decreases outputs.len() - i,
    {
        proof {
            assert(outputs@.skip(i as int)[0] == outputs@[i as int]);
            assert(outputs@.skip(i as int).drop_first() =~= outputs@.skip(i + 1));
        }
        match &outputs[i].images {
            Some(images) => {
                if images.len() > 0 {
                    return image_pair(&images[0]);
                }
            },
            None => {},
        }
        i = i + 1;
    }
    None
}

/// Every image with a file name, node by node and image by image.
pub open spec fn image_refs(imgs: Seq<HistoryImage>) -> Seq<(Seq<char>, Seq<char>)>
    decreases imgs.len(),
{
    if imgs.len() == 0 {
        Seq::empty()
    } else {
        image_refs(imgs.drop_last()) + match image_ref(imgs.last()) {
            Some(p) => seq![p],
            None => Seq::empty(),
        }
    }
}

pub open spec fn all_output_images(nodes: Seq<HistoryNodeOutput>) -> Seq<(Seq<char>, Seq<char>)>
    decreases nodes.len(),
{
    if nodes.len() == 0 {
        Seq::empty()
    } else {
        all_output_images(nodes.drop_last()) + match nodes.last().images {
            Some(v) => image_refs(v@),
            None => Seq::empty(),
        }
    }
}

/// The `(filename, subfolder)` of every image that a ComfyUI run
/// produced, as the generation backend reads them.
pub fn find_output_images(outputs: &Vec<HistoryNodeOutput>) -> (r: Vec<(String, String)>)
    ensures
        pairs_view(r@) == all_output_images(outputs@),
{
    let mut r: Vec<(String, String)> = Vec::new();
    let mut i: usize = 0;
    while i < outputs.len()
        invariant
            i <= outputs.len(),
            pairs_view(r@) == all_output_images(outputs@.take(i as int)),
        decreases outputs.len() - i,
    {
        proof {
            assert(outputs@.take(i + 1).drop_last() =~= outputs@.take(i as int));
        }
        match &outputs[i].images {
            Some(images) => {
                let ghost before = pairs_view(r@);
                let mut k: usize = 0;
                while k < images.len()
                    invariant
                        k <= images.len(),
                        pairs_view(r@) == before + image_refs(images@.take(k as int)),
                    decreases images.len() - k,
                {
                    proof {
                        assert(images@.take(k + 1).drop_last() =~= images@.take(k as int));
                    }
                    let ghost prev = r@;
                    match image_pair(&images[k]) {
                        Some(p) => {
                            r.push(p);
                            proof {
                                assert(pairs_view(r@) =~= pairs_view(prev).push((p.0@, p.1@)));
                            }
                        },
                        None => {},
                    }
                    proof {
                        assert(pairs_view(r@) =~= before + image_refs(images@.take(k + 1)));
                    }
                    k = k + 1;
                }
                proof {
                    assert(images@.take(images.len() as int) =~= images@);
                    assert(pairs_view(r@) =~= all_output_images(outputs@.take(i + 1)));
                }
            },
            None => {
                proof {
                    assert(pairs_view(r@) =~= all_output_images(outputs@.take(i + 1)));
                }
            },
        }
        i = i + 1;
    }
    proof {
        assert(outputs@.take(outputs.len() as int) =~= outputs@);
    }
    r
}

// ------------------------------------------------------------------
// Batch processing
// ------------------------------------------------------------------

/// The final status of a batch job: `completed` when every sprite
/// succeeded, `partial` when some did, `failed` when none did.
pub fn batch_job_status(completed: u32, total: u32) -> (r: &'static str)
    ensures
        r@ == (if completed == total {
            "completed"@
        } else if completed > 0 {
            "partial"@
        } else {
            "failed"@
        }),
{
    if completed == total {
        "completed"
    } else if completed > 0 {
        "partial"
    } else {
        "failed"
    }
}

/// The seed of the item at `offset`: the batch's base seed plus the offset.
pub fn seed_at(base_seed: i64, offset: u32) -> (r: i64)
    requires
        base_seed + offset <= i64::MAX,
    ensures
        r == base_seed + offset,
{
    base_seed + offset as i64
}

fn pair(key: &str, value: &str) -> (p: (String, String))
    ensures
        p.0@ == key@,
        p.1@ == value@,
{
    (key.to_owned(), value.to_owned())
}

/// The values put into the workflow for one sprite of a batch: the
/// uploaded image, the prompts, the seed, the steps, and the guidance,
/// denoise and ControlNet strengths as the caller wrote them.
pub fn sprite_replacements(
    upload_name: &str,
    positive_prompt: &str,
    negative_prompt: &str,
    seed: i64,
    steps: u32,
    cfg_scale: &str,
    denoise_strength: &str,
    controlnet_weight: &str,
) -> (r: Vec<(String, String)>)
    ensures
        pairs_view(r@) == seq![
            ("input_image"@, upload_name@),
            ("positive_prompt"@, positive_prompt@),
            ("negative_prompt"@, negative_prompt@),
            ("seed"@, signed_decimal(seed as int)),
            ("steps"@, decimal(steps as nat)),
            ("cfg_scale"@, cfg_scale@),
            ("denoise_strength"@, denoise_strength@),
            ("controlnet_weight"@, controlnet_weight@),
        ],
{
    let mut r: Vec<(String, String)> = Vec::new();
    r.push(pair("input_image", upload_name));
    r.push(pair("positive_prompt", positive_prompt));
    r.push(pair("negative_prompt", negative_prompt));
    let seed_text = i64_text(seed);
    r.push(pair("seed", seed_text.as_str()));
    let steps_text = u64_text(steps as u64);
    r.push(pair("steps", steps_text.as_str()));
    r.push(pair("cfg_scale", cfg_scale));
    r.push(pair("denoise_strength", denoise_strength));
    r.push(pair("controlnet_weight", controlnet_weight));
    proof {
        assert(pairs_view(r@) =~= seq![
            ("input_image"@, upload_name@),
            ("positive_prompt"@, positive_prompt@),
            ("negative_prompt"@, negative_prompt@),
            ("seed"@, signed_decimal(seed as int)),
            ("steps"@, decimal(steps as nat)),
            ("cfg_scale"@, cfg_scale@),
            ("denoise_strength"@, denoise_strength@),
            ("controlnet_weight"@, controlnet_weight@),
        ]);
    }
    r
}

/// A filled workflow must be JSON before it is queued; otherwise the run
/// fails with the parser's message.
pub fn check_filled_workflow(text: &str) -> (r: Result<(), AppError>)
    ensures
        match json_reading(text@) {
            Ok(_) => r is Ok,
            Err(e) => r matches Err(AppError::ComfyUI(m)) && m@ == "Invalid workflow JSON: "@ + e,
        },
{
    match read_json(text) {
        Ok(_) => Ok(()),
        Err(e) => Err(AppError::ComfyUI(message_with("Invalid workflow JSON: ", e.as_str()))),
    }
}

/// The image a run is taken from: the first it produced; none is an error.
pub fn first_output(images: &Vec<(String, String)>) -> (r: Result<(String, String), AppError>)
    ensures
        images.len() > 0 ==> (r matches Ok(p) && p.0@ == images@[0].0@ && p.1@ == images@[0].1@),
        images.len() == 0 ==> (r matches Err(AppError::ComfyUI(m)) && m@ == "No output images found"@),
{
    if images.len() > 0 {
        Ok((images[0].0.clone(), images[0].1.clone()))
    } else {
        Err(AppError::ComfyUI(message("No output images found")))
    }
}

} // verus!
