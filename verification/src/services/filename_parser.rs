//! Reading character, direction, animation and frame out of the file name of
//! a sprite image, such as `warrior_down_walk_01.png`.
use vstd::prelude::*;
use crate::posix_path::{is_plain_part, is_separator, lemma_split_extend, lemma_split_nonempty, split_by, split_chars, views, Separator};
use crate::text::{
    all_digits, ascii_lower, chars_of, chars_eq, digits_value, ends_with, ends_with_exec, is_ascii_digit,
    parse_u32_chars, parse_u32_spec, string_from_chars,
};

verus! {

/// Names the result of `str::to_lowercase`: the string with every character
/// replaced by its Unicode lower-case mapping.
pub uninterp spec fn unicode_lowercase(s: Seq<char>) -> Seq<char>;

/// Every character of the text is ASCII.
pub open spec fn is_ascii_text(s: Seq<char>) -> bool {
    forall|i: int| 0 <= i < s.len() ==> (#[trigger] s[i] as u32) < 128
}

/// The text with `A`–`Z` written as `a`–`z`.
pub open spec fn ascii_lowercase(s: Seq<char>) -> Seq<char> {
    s.map_values(|c: char| ascii_lower(c))
}

/// `str::to_lowercase`; its result is named by `unicode_lowercase`. On
/// ASCII text the Unicode lower-case mapping is the ASCII one: `A`–`Z`
/// become `a`–`z`, every other character stays. Neither `-` nor `_` is
/// cased or maps to anything but itself, and no other character maps to
/// them, so writing `-` as `_` before lower-casing gives the same as
/// writing it after.
#[verifier::external_body]
fn to_lowercase(s: &str) -> (r: String)
    ensures
        r@ == unicode_lowercase(s@),
        is_ascii_text(s@) ==> r@ == ascii_lowercase(s@),
        hyphens_as_underscores(r@) == unicode_lowercase(hyphens_as_underscores(s@)),
{
    s.to_lowercase()
}

/// The result of reading a sprite file name.
#[derive(Debug, PartialEq, Eq)]
pub struct ParsedFilename {
    pub character: String,
    pub direction: String,
    pub animation: String,
    pub frame_index: u32,
}

/// The parts of a parsed name as plain values: character, direction,
/// animation and frame.
pub type ParsedParts = (Seq<char>, Seq<char>, Seq<char>, u32);

pub open spec fn parsed_view(p: ParsedFilename) -> ParsedParts {
    (p.character@, p.direction@, p.animation@, p.frame_index)
}

pub open spec fn parsed_option_view(r: Option<ParsedFilename>) -> Option<ParsedParts> {
    match r {
        Some(p) => Some(parsed_view(p)),
        None => None,
    }
}

/// The image extensions that are removed before parsing, in the order in
/// which they are tried.
pub open spec fn image_extensions() -> Seq<Seq<char>> {
    seq![".png"@, ".jpg"@, ".jpeg"@, ".webp"@, ".bmp"@, ".tiff"@, ".tif"@]
}

/// The name without the first image extension (in the order above) that it
/// ends with; the name itself when it ends with none.
pub open spec fn strip_from(name: Seq<char>, exts: Seq<Seq<char>>) -> Seq<char>
    decreases exts.len(),
{
    if exts.len() == 0 {
        name
    } else if ends_with(name, exts[0]) {
        name.take(name.len() - exts[0].len())
    } else {
        strip_from(name, exts.drop_first())
    }
}

pub open spec fn strip_image_extension(name: Seq<char>) -> Seq<char> {
    strip_from(name, image_extensions())
}

/// The first position at or after `from` whose part is one of `names`.
pub open spec fn find_from(parts: Seq<Seq<char>>, names: Seq<Seq<char>>, from: int) -> Option<int>
    decreases parts.len() - from,
{
    if from < 0 || from >= parts.len() {
        None
    } else if names.contains(parts[from]) {
        Some(from)
    } else {
        find_from(parts, names, from + 1)
    }
}

/// The parts joined with `_` between them.
pub open spec fn join_underscore(parts: Seq<Seq<char>>) -> Seq<char>
    decreases parts.len(),
{
    if parts.len() == 0 {
        Seq::empty()
    } else if parts.len() == 1 {
        parts[0]
    } else {
        join_underscore(parts.drop_last()) + seq!['_'] + parts.last()
    }
}

/// The parts that remain once a trailing frame number is taken off.
pub open spec fn parts_before_frame(parts: Seq<Seq<char>>) -> Seq<Seq<char>> {
    if parse_u32_spec(parts.last()) is Some {
        parts.drop_last()
    } else {
        parts
    }
}

/// The frame number: the last part read as a number, or 0 when it is none.
pub open spec fn frame_of(parts: Seq<Seq<char>>) -> u32 {
    match parse_u32_spec(parts.last()) {
        Some(f) => f,
        None => 0,
    }
}

/// Reading a lower-cased file stem. It is split at `_` and `-`; fewer than
/// three parts is no sprite name. A trailing number is the frame (else the
/// frame is 0). The first part that is a valid direction is the direction,
/// the first valid animation after it is the animation, and the parts before
/// the direction, joined with `_`, are the character, which must not be empty.
pub open spec fn parse_stem(
    directions: Seq<Seq<char>>,
    animations: Seq<Seq<char>>,
    stem: Seq<char>,
) -> Option<ParsedParts> {
    let parts = split_by(stem, Separator::NamePart);
    if parts.len() < 3 {
        None
    } else {
        let rest = parts_before_frame(parts);
        match find_from(rest, directions, 0) {
            None => None,
            Some(d) => match find_from(rest, animations, d + 1) {
                None => None,
                Some(a) => {
                    let character = join_underscore(rest.take(d));
                    if character.len() == 0 {
                        None
                    } else {
                        Some((character, rest[d], rest[a], frame_of(parts)))
                    }
                },
            },
        }
    }
}

/// Reads sprite file names against the directions and animations that a
/// project defines.
pub struct FilenameParser {
    valid_directions: Vec<String>,
    valid_animations: Vec<String>,
}

pub open spec fn names_view(names: Seq<String>) -> Seq<Seq<char>> {
    names.map_values(|s: String| s@)
}

impl View for FilenameParser {
    /// The valid directions and the valid animations.
    type V = (Seq<Seq<char>>, Seq<Seq<char>>);

    closed spec fn view(&self) -> Self::V {
        (names_view(self.valid_directions@), names_view(self.valid_animations@))
    }
}

/// The lower-cased names held as character vectors.
fn names_as_chars(names: &Vec<String>) -> (r: Vec<Vec<char>>)
    ensures
        views(r@) == names_view(names@),
{
    let mut r: Vec<Vec<char>> = Vec::new();
    let mut i: usize = 0;
    while i < names.len()
        invariant
            i <= names.len(),
            r@.len() == i,
            views(r@) == names_view(names@.take(i as int)),
        decreases names.len() - i,
    {
        let ghost before = r@;
        r.push(chars_of(names[i].as_str()));
        proof {
            assert(names@.take(i + 1) =~= names@.take(i as int).push(names@[i as int]));
            assert(r@ =~= before.push(r@[i as int]));
            assert(views(r@) =~= views(before).push(names@[i as int]@));
            assert(names_view(names@.take(i + 1)) =~= names_view(names@.take(i as int)).push(names@[i as int]@));
        }
        i = i + 1;
    }
    proof {
        assert(names@.take(names.len() as int) =~= names@);
    }
    r
}

/// Is `part` one of `names`?
fn is_one_of(names: &Vec<Vec<char>>, part: &Vec<char>) -> (r: bool)
    ensures
        r == views(names@).contains(part@),
{
    let mut i: usize = 0;
    while i < names.len()
        invariant
            i <= names.len(),
            forall|k: int| 0 <= k < i ==> names@[k]@ != part@,
        decreases names.len() - i,
    {
        if chars_eq(&names[i], part) {
            proof {
                assert(views(names@).len() == names@.len());
                assert(views(names@)[i as int] == names@[i as int]@);
            }
            return true;
        }
        i = i + 1;
    }
    proof {
        if views(names@).contains(part@) {
            let k = choose|k: int| 0 <= k < views(names@).len() && views(names@)[k] == part@;
            assert(names@[k]@ == part@);
        }
    }
    false
}

/// The first position at or after `from` (below `end`) whose part is one of `names`.
fn find_part(parts: &Vec<Vec<char>>, end: usize, names: &Vec<Vec<char>>, from: usize) -> (r: Option<usize>)
    requires
        end <= parts.len(),
    ensures
        match r {
            Some(k) => find_from(views(parts@).take(end as int), views(names@), from as int) == Some(k as int),
            None => find_from(views(parts@).take(end as int), views(names@), from as int) is None,
        },
    decreases end - from,
{
    let ghost seqs = views(parts@).take(end as int);
    if from >= end {
        return None;
    }
    proof {
        assert(seqs[from as int] == parts@[from as int]@);
    }
    if is_one_of(names, &parts[from]) {
        return Some(from);
    }
    find_part(parts, end, names, from + 1)
}

/// The parts before `end`, joined with `_`.
fn join_parts(parts: &Vec<Vec<char>>, end: usize) -> (r: Vec<char>)
    requires
        end <= parts.len(),
    ensures
        r@ == join_underscore(views(parts@).take(end as int)),
{
    let mut r: Vec<char> = Vec::new();
    let mut i: usize = 0;
    proof {
        assert(views(parts@).take(0) =~= Seq::<Seq<char>>::empty());
    }
    while i < end
        invariant
            i <= end <= parts.len(),
            r@ == join_underscore(views(parts@).take(i as int)),
        decreases end - i,
    {
        let ghost before = r@;
        if i > 0 {
            r.push('_');
        }
        let p = &parts[i];
        let mut k: usize = 0;
        let ghost mid = r@;
        while k < p.len()
            invariant
                k <= p.len(),
                r@ == mid + p@.take(k as int),
            decreases p.len() - k,
        {
            r.push(p[k]);
            proof {
                assert(p@.take(k + 1) =~= p@.take(k as int).push(p@[k as int]));
            }
            k = k + 1;
        }
        proof {
            let t = views(parts@).take(i + 1);
            assert(t.drop_last() =~= views(parts@).take(i as int));
            assert(t.last() == p@);
            assert(p@.take(p.len() as int) =~= p@);
            if i == 0 {
                assert(r@ =~= p@);
            } else {
                assert(r@ =~= before + seq!['_'] + p@);
            }
        }
        i = i + 1;
    }
    r
}

impl FilenameParser {
    /// A parser for the given valid directions and animations.
    pub fn new(directions: Vec<String>, animations: Vec<String>) -> (p: Self)
        ensures
            p@ == (names_view(directions@), names_view(animations@)),
    {
        FilenameParser { valid_directions: directions, valid_animations: animations }
    }

    /// Reads a file stem that is already in lower case.
    pub fn parse_stem(&self, stem: &str) -> (r: Option<ParsedFilename>)
        ensures
            parsed_option_view(r) == parse_stem(self@.0, self@.1, stem@),
    {
        let v = chars_of(stem);
        let parts = split_chars(&v, Separator::NamePart);
        proof {
            crate::posix_path::lemma_split_nonempty(stem@, Separator::NamePart);
        }
        if parts.len() < 3 {
            return None;
        }
        let ghost pv = views(parts@);
        let last = &parts[parts.len() - 1];
        proof {
            assert(pv.last() == last@);
        }
        let (frame, end) = match parse_u32_chars(last) {
            Some(f) => (f, parts.len() - 1),
            None => (0u32, parts.len()),
        };
        proof {
            if parse_u32_spec(last@) is Some {
                assert(pv.take(end as int) =~= pv.drop_last());
            } else {
                assert(pv.take(end as int) =~= pv);
            }
            assert(pv.take(end as int) == parts_before_frame(pv));
        }
        let dirs = names_as_chars(&self.valid_directions);
        let anims = names_as_chars(&self.valid_animations);
        let d = match find_part(&parts, end, &dirs, 0) {
            Some(d) => d,
            None => return None,
        };
        proof {
            crate::services::filename_parser::lemma_find_bounds(pv.take(end as int), views(dirs@), 0);
        }
        let a = match find_part(&parts, end, &anims, d + 1) {
            Some(a) => a,
            None => return None,
        };
        proof {
            crate::services::filename_parser::lemma_find_bounds(pv.take(end as int), views(anims@), d + 1);
        }
        let character = join_parts(&parts, d);
        proof {
            assert(pv.take(end as int).take(d as int) =~= pv.take(d as int));
        }
        if character.len() == 0 {
            return None;
        }
        proof {
            assert(pv.take(end as int)[d as int] == parts@[d as int]@);
            assert(pv.take(end as int)[a as int] == parts@[a as int]@);
        }
        Some(ParsedFilename {
            character: string_from_chars(&character),
            direction: string_from_chars(&parts[d]),
            animation: string_from_chars(&parts[a]),
            frame_index: frame,
        })
    }

    /// Reads a sprite file name: the image extension is removed, the rest is
    /// lower-cased, then read as `parse_stem` describes. `-` and `_` are
    /// interchangeable: the name with every `-` written as `_` reads the
    /// same (the third clause, with the first applied to that name).
    pub fn parse(&self, filename: &str) -> (r: Option<ParsedFilename>)
        ensures
            parsed_option_view(r) == parse_stem(
                self@.0,
                self@.1,
                unicode_lowercase(strip_image_extension(filename@)),
            ),
            is_ascii_text(filename@) ==> parsed_option_view(r) == parse_stem(
                self@.0,
                self@.1,
                ascii_lowercase(strip_image_extension(filename@)),
            ),
            parsed_option_view(r) == parse_stem(
                self@.0,
                self@.1,
                unicode_lowercase(strip_image_extension(hyphens_as_underscores(filename@))),
            ),
    {
        let stem = strip_image_ext(filename);
        proof {
            lemma_strip_keeps_ascii(filename@);
            lemma_strip_image_ignores_hyphens(filename@);
        }
        let normalized = to_lowercase(stem.as_str());
        proof {
            lemma_split_ignores_hyphens(normalized@);
        }
        self.parse_stem(normalized.as_str())
    }
}

/// A found position lies in the searched range.
pub proof fn lemma_find_bounds(parts: Seq<Seq<char>>, names: Seq<Seq<char>>, from: int)
    ensures
        find_from(parts, names, from) matches Some(k) ==> from <= k < parts.len()
            && names.contains(parts[k]),
    decreases parts.len() - from,
{
    if 0 <= from < parts.len() && !names.contains(parts[from]) {
        lemma_find_bounds(parts, names, from + 1);
    }
}

/// The name without its image extension.
fn strip_image_ext(filename: &str) -> (r: String)
    ensures
        r@ == strip_image_extension(filename@),
{
    let v = chars_of(filename);
    let exts: [&str; 7] = [".png", ".jpg", ".jpeg", ".webp", ".bmp", ".tiff", ".tif"];
    let mut i: usize = 0;
    proof {
        reveal_strlit(".png");
        reveal_strlit(".jpg");
        reveal_strlit(".jpeg");
        reveal_strlit(".webp");
        reveal_strlit(".bmp");
        reveal_strlit(".tiff");
        reveal_strlit(".tif");
        assert(image_extensions().skip(0) =~= image_extensions());
    }
    while i < 7
        invariant
            i <= 7,
            v@ == filename@,
            exts@.map_values(|e: &str| e@) == image_extensions(),
            strip_from(filename@, image_extensions()) == strip_from(filename@, image_extensions().skip(i as int)),
        decreases 7 - i,
    {
        let ext = chars_of(exts[i]);
        proof {
            assert(image_extensions().skip(i as int)[0] == ext@);
            assert(image_extensions().skip(i as int).drop_first() =~= image_extensions().skip(i + 1));
        }
        if ends_with_exec(&v, &ext) {
            let keep = v.len() - ext.len();
            let mut out: Vec<char> = Vec::new();
            let mut k: usize = 0;
            while k < keep
                invariant
                    keep <= v.len(),
                    k <= keep,
                    out@ == v@.take(k as int),
                decreases keep - k,
            {
                out.push(v[k]);
                proof {
                    assert(v@.take(k + 1) =~= v@.take(k as int).push(v@[k as int]));
                }
                k = k + 1;
            }
            return string_from_chars(&out);
        }
        i = i + 1;
    }
    proof {
        assert(image_extensions().skip(7).len() == 0);
    }
    filename.to_owned()
}

/// Splitting parts joined with `_` gives the parts back, when none of them
/// holds a separator.
pub proof fn lemma_split_join(parts: Seq<Seq<char>>)
    requires
        parts.len() >= 1,
        forall|k: int| 0 <= k < parts.len() ==> is_plain_part(Separator::NamePart, #[trigger] parts[k]),
    ensures
        split_by(join_underscore(parts), Separator::NamePart) == parts,
    decreases parts.len(),
{
    if parts.len() == 1 {
        lemma_split_extend(Separator::NamePart, Seq::<char>::empty(), parts[0]);
        assert(Seq::<char>::empty() + parts[0] =~= parts[0]);
        assert(split_by(Seq::<char>::empty(), Separator::NamePart) =~= seq![Seq::<char>::empty()]);
        assert(Seq::<char>::empty() + parts[0] =~= parts[0]);
        assert(seq![Seq::<char>::empty()].update(0, Seq::<char>::empty() + parts[0]) =~= parts);
    } else {
        let prev = parts.drop_last();
        assert forall|k: int| 0 <= k < prev.len() implies is_plain_part(Separator::NamePart, #[trigger] prev[k]) by {
            assert(prev[k] == parts[k]);
        }
        lemma_split_join(prev);
        let j = join_underscore(prev);
        let with_sep = j + seq!['_'];
        assert(with_sep.drop_last() =~= j);
        assert(split_by(with_sep, Separator::NamePart) == split_by(j, Separator::NamePart).push(Seq::<char>::empty()));
        assert(is_plain_part(Separator::NamePart, parts.last()));
        lemma_split_extend(Separator::NamePart, with_sep, parts.last());
        assert(Seq::<char>::empty() + parts.last() =~= parts.last());
        assert(prev.push(Seq::<char>::empty()).update(prev.len() as int, parts.last()) =~= parts);
    }
}

/// Joining non-empty parts with `_` gives a non-empty text.
proof fn lemma_join_nonempty(parts: Seq<Seq<char>>)
    requires
        parts.len() >= 1,
        parts[0].len() > 0,
    ensures
        join_underscore(parts).len() > 0,
    decreases parts.len(),
{
    if parts.len() > 1 {
        lemma_join_nonempty(parts.drop_last());
    }
}

/// The search from `from` stops at `at` when none of the parts before it
/// is among the names and `at`'s is.
proof fn lemma_find_first(parts: Seq<Seq<char>>, names: Seq<Seq<char>>, from: int, at: int)
    requires
        0 <= from <= at < parts.len(),
        names.contains(parts[at]),
        forall|k: int| from <= k < at ==> !names.contains(#[trigger] parts[k]),
    ensures
        find_from(parts, names, from) == Some(at),
    decreases at - from,
{
    if from < at {
        lemma_find_first(parts, names, from + 1, at);
    }
}

/// The law of sprite names: a stem written as
/// `{character}_{direction}_{animation}_{frame}`, whose character parts are
/// non-empty and not directions and whose parts hold no `_` or `-`, reads
/// back as that character, direction, animation and frame.
pub proof fn lemma_parse_stem_round_trip(
    directions: Seq<Seq<char>>,
    animations: Seq<Seq<char>>,
    character: Seq<Seq<char>>,
    direction: Seq<char>,
    animation: Seq<char>,
    frame: Seq<char>,
)
    requires
        character.len() >= 1,
        forall|k: int| 0 <= k < character.len() ==> (#[trigger] character[k]).len() > 0
            && is_plain_part(Separator::NamePart, character[k]) && !directions.contains(character[k]),
        directions.contains(direction),
        animations.contains(animation),
        is_plain_part(Separator::NamePart, direction),
        is_plain_part(Separator::NamePart, animation),
        frame.len() > 0,
        all_digits(frame),
        digits_value(frame) <= u32::MAX,
    ensures
        parse_stem(directions, animations, join_underscore(character + seq![direction, animation, frame]))
            == Some((join_underscore(character), direction, animation, digits_value(frame) as u32)),
{
    let parts = character + seq![direction, animation, frame];
    let n = character.len() as int;
    assert forall|k: int| 0 <= k < parts.len() implies is_plain_part(Separator::NamePart, #[trigger] parts[k]) by {
        if k < n {
            assert(parts[k] == character[k]);
        } else if k == n + 2 {
            assert forall|i: int| 0 <= i < frame.len() implies !is_separator(Separator::NamePart, #[trigger] frame[i]) by {
                assert(is_ascii_digit(frame[i]));
            }
        }
    }
    lemma_split_join(parts);
    assert(frame[0] != '+') by {
        assert(is_ascii_digit(frame[0]));
    }
    assert(parts.last() == frame);
    assert(parse_u32_spec(frame) == Some(digits_value(frame) as u32));
    let rest = parts_before_frame(parts);
    assert(rest =~= character + seq![direction, animation]);
    assert forall|k: int| 0 <= k < n implies !directions.contains(#[trigger] rest[k]) by {
        assert(rest[k] == character[k]);
    }
    lemma_find_first(rest, directions, 0, n);
    lemma_find_first(rest, animations, n + 1, n + 1);
    assert(rest.take(n) =~= character);
    lemma_join_nonempty(character);
}

// ------------------------------------------------------------------
// Hyphens and underscores
// ------------------------------------------------------------------

/// The text with every `-` written as `_`.
pub open spec fn hyphens_as_underscores(s: Seq<char>) -> Seq<char> {
    s.map_values(|c: char| if c == '-' { '_' } else { c })
}

/// Writing `-` as `_` leaves the parts of a name as they were.
proof fn lemma_split_ignores_hyphens(t: Seq<char>)
    ensures
        split_by(hyphens_as_underscores(t), Separator::NamePart) == split_by(t, Separator::NamePart),
    decreases t.len(),
{
    let h = hyphens_as_underscores(t);
    if t.len() > 0 {
        lemma_split_ignores_hyphens(t.drop_last());
        assert(h.drop_last() =~= hyphens_as_underscores(t.drop_last()));
        assert(h.last() == (if t.last() == '-' { '_' } else { t.last() }));
    } else {
        assert(h =~= t);
    }
}

/// An image extension never holds `-` or `_`, so a name ends with one
/// exactly when its hyphen-free form does, and loses the same tail.
proof fn lemma_strip_ignores_hyphens(name: Seq<char>, exts: Seq<Seq<char>>)
    requires
        forall|k: int, i: int| 0 <= k < exts.len() && 0 <= i < exts[k].len() ==> #[trigger] exts[k][i] != '-'
            && exts[k][i] != '_',
    ensures
        strip_from(hyphens_as_underscores(name), exts) == hyphens_as_underscores(strip_from(name, exts)),
    decreases exts.len(),
{
    let h = hyphens_as_underscores(name);
    if exts.len() > 0 {
        let e = exts[0];
        let n = name.len() - e.len();
        if e.len() <= name.len() {
            let a = h.subrange(n, h.len() as int);
            let b = name.subrange(n, name.len() as int);
            if ends_with(name, e) {
                assert(a =~= e) by {
                    assert forall|i: int| 0 <= i < e.len() implies a[i] == e[i] by {
                        assert(b[i] == e[i]);
                        assert(exts[0][i] != '-');
                    }
                }
            }
            if ends_with(h, e) {
                assert(b =~= e) by {
                    assert forall|i: int| 0 <= i < e.len() implies b[i] == e[i] by {
                        assert(a[i] == e[i]);
                        assert(exts[0][i] != '_');
                    }
                }
            }
            assert(h.take(n) =~= hyphens_as_underscores(name.take(n)));
        }
        assert forall|k: int, i: int| 0 <= k < exts.drop_first().len() && 0 <= i < exts.drop_first()[k].len()
            implies #[trigger] exts.drop_first()[k][i] != '-' && exts.drop_first()[k][i] != '_' by {
            assert(exts.drop_first()[k] == exts[k + 1]);
        }
        lemma_strip_ignores_hyphens(name, exts.drop_first());
    }
}

/// Removing an extension keeps a prefix of the name.
proof fn lemma_strip_from_prefix(name: Seq<char>, exts: Seq<Seq<char>>)
    ensures
        exists|n: int| 0 <= n <= name.len() && #[trigger] name.take(n) == strip_from(name, exts),
    decreases exts.len(),
{
    if exts.len() == 0 {
        assert(name.take(name.len() as int) =~= name);
    } else if ends_with(name, exts[0]) {
        let n = name.len() - exts[0].len();
        assert(name.take(n) == strip_from(name, exts));
    } else {
        lemma_strip_from_prefix(name, exts.drop_first());
    }
}

/// The name of an ASCII file without its extension is ASCII too.
proof fn lemma_strip_keeps_ascii(name: Seq<char>)
    ensures
        is_ascii_text(name) ==> is_ascii_text(strip_image_extension(name)),
{
    lemma_strip_from_prefix(name, image_extensions());
    let n = choose|n: int| 0 <= n <= name.len() && #[trigger] name.take(n) == strip_image_extension(name);
    let y = strip_image_extension(name);
    if is_ascii_text(name) {
        assert forall|i: int| 0 <= i < y.len() implies (#[trigger] y[i] as u32) < 128 by {
            assert(y[i] == name[i]);
        }
    }
}

/// Removing the image extension commutes with writing `-` as `_`.
proof fn lemma_strip_image_ignores_hyphens(name: Seq<char>)
    ensures
        strip_image_extension(hyphens_as_underscores(name)) == hyphens_as_underscores(strip_image_extension(name)),
{
    reveal_strlit(".png");
    reveal_strlit(".jpg");
    reveal_strlit(".jpeg");
    reveal_strlit(".webp");
    reveal_strlit(".bmp");
    reveal_strlit(".tiff");
    reveal_strlit(".tif");
    let exts = image_extensions();
    assert forall|k: int, i: int| 0 <= k < exts.len() && 0 <= i < exts[k].len()
        implies #[trigger] exts[k][i] != '-' && exts[k][i] != '_' by {
        assert(0 <= k < 7);
    }
    lemma_strip_ignores_hyphens(name, exts);
}

/// A name ends with the first listed extension that it ends with: its
/// tail goes, and the others are not tried.
proof fn lemma_strip_first_match(x: Seq<char>, exts: Seq<Seq<char>>, k: int)
    requires
        0 <= k < exts.len(),
        ends_with(x, exts[k]),
        forall|j: int| 0 <= j < k ==> !ends_with(x, #[trigger] exts[j]),
    ensures
        strip_from(x, exts) == x.take(x.len() - exts[k].len()),
    decreases k,
{
    if k > 0 {
        assert(!ends_with(x, exts[0]));
        let rest = exts.drop_first();
        assert forall|j: int| 0 <= j < k - 1 implies !ends_with(x, #[trigger] rest[j]) by {
            assert(rest[j] == exts[j + 1]);
        }
        lemma_strip_first_match(x, rest, k - 1);
    }
}

/// A stem followed by one of the image extensions loses exactly that
/// extension: no extension listed before it ends the same way.
proof fn lemma_strip_appended(x: Seq<char>, k: int)
    requires
        0 <= k < 7,
    ensures
        strip_image_extension(x + image_extensions()[k]) == x,
{
    reveal_strlit(".png");
    reveal_strlit(".jpg");
    reveal_strlit(".jpeg");
    reveal_strlit(".webp");
    reveal_strlit(".bmp");
    reveal_strlit(".tiff");
    reveal_strlit(".tif");
    let exts = image_extensions();
    let e = exts[k];
    let y = x + e;
    let n = y.len();
    assert(y.subrange(n - e.len(), n as int) =~= e);
    assert forall|j: int| 0 <= j < k implies !ends_with(y, #[trigger] exts[j]) by {
        let f = exts[j];
        if ends_with(y, f) {
            // The last two characters of the two extensions would agree.
            assert(y.subrange(n - f.len(), n as int)[f.len() - 1] == y[n - 1]);
            assert(y.subrange(n - f.len(), n as int)[f.len() - 2] == y[n - 2]);
            assert(y[n - 1] == e[e.len() - 1]);
            assert(y[n - 2] == e[e.len() - 2]);
            assert(f[f.len() - 1] == e[e.len() - 1] && f[f.len() - 2] == e[e.len() - 2]);
            assert(false);
        }
    }
    lemma_strip_first_match(y, exts, k);
    assert(y.take(n - e.len()) =~= x);
}

/// The law of case, for ASCII names: a stem in mixed case followed by an
/// image extension reads as its lower-case form followed by the same
/// extension does (both names as `parse` reads ASCII names).
pub proof fn lemma_case_is_ignored(
    directions: Seq<Seq<char>>,
    animations: Seq<Seq<char>>,
    stem: Seq<char>,
    k: int,
)
    requires
        0 <= k < 7,
    ensures
        parse_stem(directions, animations, ascii_lowercase(strip_image_extension(stem + image_extensions()[k])))
            == parse_stem(
                directions,
                animations,
                ascii_lowercase(strip_image_extension(ascii_lowercase(stem) + image_extensions()[k])),
            ),
        is_ascii_text(stem) ==> is_ascii_text(stem + image_extensions()[k]) && is_ascii_text(
            ascii_lowercase(stem) + image_extensions()[k],
        ),
{
    lemma_strip_appended(stem, k);
    lemma_strip_appended(ascii_lowercase(stem), k);
    let low = ascii_lowercase(stem);
    assert(ascii_lowercase(low) =~= low);
    reveal_strlit(".png");
    reveal_strlit(".jpg");
    reveal_strlit(".jpeg");
    reveal_strlit(".webp");
    reveal_strlit(".bmp");
    reveal_strlit(".tiff");
    reveal_strlit(".tif");
    let e = image_extensions()[k];
    assert forall|i: int| 0 <= i < e.len() implies (#[trigger] e[i] as u32) < 128 by {
        assert(0 <= k < 7);
    }
    if is_ascii_text(stem) {
        let a = stem + e;
        let b = low + e;
        assert forall|i: int| 0 <= i < a.len() implies (#[trigger] a[i] as u32) < 128 by {
            if i >= stem.len() {
                assert(a[i] == e[i - stem.len()]);
            }
        }
        assert forall|i: int| 0 <= i < b.len() implies (#[trigger] b[i] as u32) < 128 by {
            if i >= low.len() {
                assert(b[i] == e[i - low.len()]);
            } else {
                assert(b[i] == ascii_lower(stem[i]));
            }
        }
    }
}

} // verus!
