//! Importing sprite files into a character: what a file's name says of
//! the sprite, and where the file is copied.
use vstd::prelude::*;
use crate::error::{message, message_with, AppError};
use crate::models::sprite::CreateSprite;
use crate::posix_path::{file_name, file_name_of, join, join_path, split_file_name, stem_of_name};
use crate::text::{all_digits, chars_of, digits_value, is_ascii_digit, lemma_digits_prefix_bound, lemma_digits_value_grows, string_from_chars};

verus! {

/// The position of the first `_` at or after `from`, or the length.
pub open spec fn underscore_from(s: Seq<char>, from: int) -> int
    decreases s.len() - from,
{
    if from < 0 || from >= s.len() {
        s.len() as int
    } else if s[from] == '_' {
        from
    } else {
        underscore_from(s, from + 1)
    }
}

/// `str::splitn(4, '_')`: split at the first three underscores; the last
/// part keeps any further ones.
pub open spec fn split4(s: Seq<char>) -> Seq<Seq<char>> {
    let a = underscore_from(s, 0);
    if a == s.len() {
        seq![s]
    } else {
        let b = underscore_from(s, a + 1);
        if b == s.len() {
            seq![s.take(a), s.skip(a + 1)]
        } else {
            let c = underscore_from(s, b + 1);
            if c == s.len() {
                seq![s.take(a), s.subrange(a + 1, b), s.skip(b + 1)]
            } else {
                seq![s.take(a), s.subrange(a + 1, b), s.subrange(b + 1, c), s.skip(c + 1)]
            }
        }
    }
}

/// What `str::parse::<i32>` accepts: an optional sign and one or more
/// digits whose value fits.
pub open spec fn parse_i32_spec(s: Seq<char>) -> Option<i32> {
    let negative = s.len() > 0 && s[0] == '-';
    let body = if s.len() > 0 && (s[0] == '+' || s[0] == '-') { s.drop_first() } else { s };
    if body.len() > 0 && all_digits(body) {
        let v = digits_value(body);
        if negative && v <= 0x8000_0000 {
            Some((-v) as i32)
        } else if !negative && v <= 0x7fff_ffff {
            Some(v as i32)
        } else {
            None
        }
    } else {
        None
    }
}

/// The stem of a path's file name (`Path::file_stem`).
pub open spec fn file_stem_of(p: Seq<char>) -> Option<Seq<char>> {
    match file_name_of(p) {
        Some(n) => Some(stem_of_name(n)),
        None => None,
    }
}

fn underscore_from_exec(v: &Vec<char>, from: usize) -> (r: usize)
    requires
        from <= v.len(),
    ensures
        r == underscore_from(v@, from as int),
        from <= r <= v.len(),
{
    let mut i = from;
    while i < v.len() && v[i] != '_'
        invariant
            from <= i <= v.len(),
            underscore_from(v@, i as int) == underscore_from(v@, from as int),
        decreases v.len() - i,
    {
        i = i + 1;
    }
    i
}

fn sub_chars(v: &Vec<char>, start: usize, end: usize) -> (r: Vec<char>)
    requires
        start <= end <= v.len(),
    ensures
        r@ == v@.subrange(start as int, end as int),
{
    let mut r: Vec<char> = Vec::new();
    let mut i = start;
    while i < end
        invariant
            start <= i <= end,
            end <= v.len(),
            r@ == v@.subrange(start as int, i as int),
        decreases end - i,
    {
        r.push(v[i]);
        proof {
            assert(v@.subrange(start as int, i + 1) =~= v@.subrange(start as int, i as int).push(v@[i as int]));
        }
        i = i + 1;
    }
    r
}

/// The parts of `str::splitn(4, '_')`.
pub fn split4_chars(v: &Vec<char>) -> (r: Vec<Vec<char>>)
    ensures
        r@.map_values(|p: Vec<char>| p@) == split4(v@),
{
    let mut r: Vec<Vec<char>> = Vec::new();
    let a = underscore_from_exec(v, 0);
    if a == v.len() {
        r.push(sub_chars(v, 0, v.len()));
        proof {
            assert(v@.subrange(0, v.len() as int) =~= v@);
            assert(r@.map_values(|p: Vec<char>| p@) =~= split4(v@));
        }
        return r;
    }
    r.push(sub_chars(v, 0, a));
    let b = underscore_from_exec(v, a + 1);
    if b == v.len() {
        r.push(sub_chars(v, a + 1, v.len()));
        proof {
            assert(v@.subrange(0, a as int) =~= v@.take(a as int));
            assert(v@.subrange(a + 1, v.len() as int) =~= v@.skip(a + 1));
            assert(r@.map_values(|p: Vec<char>| p@) =~= split4(v@));
        }
        return r;
    }
    r.push(sub_chars(v, a + 1, b));
    let c = underscore_from_exec(v, b + 1);
    if c == v.len() {
        r.push(sub_chars(v, b + 1, v.len()));
        proof {
            assert(v@.subrange(0, a as int) =~= v@.take(a as int));
            assert(v@.subrange(b + 1, v.len() as int) =~= v@.skip(b + 1));
            assert(r@.map_values(|p: Vec<char>| p@) =~= split4(v@));
        }
        return r;
    }
    r.push(sub_chars(v, b + 1, c));
    r.push(sub_chars(v, c + 1, v.len()));
    proof {
        assert(v@.subrange(0, a as int) =~= v@.take(a as int));
        assert(v@.subrange(c + 1, v.len() as int) =~= v@.skip(c + 1));
        assert(r@.map_values(|p: Vec<char>| p@) =~= split4(v@));
    }
    r
}

/// `str::parse::<i32>` on a sequence of characters.
pub fn parse_i32_chars(v: &Vec<char>) -> (r: Option<i32>)
    ensures
        r == parse_i32_spec(v@),
{
    let negative = v.len() > 0 && v[0] == '-';
    let start: usize = if v.len() > 0 && (v[0] == '+' || v[0] == '-') { 1 } else { 0 };
    let ghost body = if v@.len() > 0 && (v@[0] == '+' || v@[0] == '-') { v@.drop_first() } else { v@ };
    proof {
        assert(body =~= v@.skip(start as int));
    }
    if start >= v.len() {
        return None;
    }
    let bound: u64 = if negative { 0x8000_0000 } else { 0x7fff_ffff };
    let mut value: u64 = 0;
    let mut i: usize = start;
    proof {
        assert(v@.subrange(start as int, start as int) =~= Seq::<char>::empty());
    }
    while i < v.len()
        invariant
            start <= i <= v.len(),
            start < v.len(),
            body =~= v@.skip(start as int),
            body == (if v@.len() > 0 && (v@[0] == '+' || v@[0] == '-') { v@.drop_first() } else { v@ }),
            negative == (v@.len() > 0 && v@[0] == '-'),
            bound == (if negative { 0x8000_0000u64 } else { 0x7fff_ffffu64 }),
            value as nat == digits_value(v@.subrange(start as int, i as int)),
            value <= bound,
            all_digits(v@.subrange(start as int, i as int)),
        decreases v.len() - i,
    {
        let c = v[i];
        if !('0' <= c && c <= '9') {
            proof {
                assert(body[i - start] == c);
                assert(!is_ascii_digit(body[i - start]));
            }
            return None;
        }
        let d = (c as u32 - '0' as u32) as u64;
        proof {
            lemma_digits_value_grows(v@.subrange(start as int, i as int), c);
            assert(v@.subrange(start as int, i + 1) =~= v@.subrange(start as int, i as int).push(c));
        }
        let next = value * 10 + d;
        if next > bound {
            proof {
                if all_digits(body) {
                    lemma_digits_prefix_bound(body, (i + 1 - start) as int);
                    assert(body.take((i + 1 - start) as int) =~= v@.subrange(start as int, i + 1));
                }
            }
            return None;
        }
        value = next;
        i = i + 1;
    }
    proof {
        assert(v@.subrange(start as int, v.len() as int) =~= body);
    }
    if negative {
        Some((0 - (value as i64)) as i32)
    } else {
        Some(value as i32)
    }
}

/// What a sprite file's name says: `{character}_{direction}_{animation}_{frame}`.
#[derive(Debug)]
pub struct ImportedName {
    pub direction: String,
    pub animation: String,
    pub frame_index: i32,
}

/// Reads the direction, animation and frame of a file to import from the
/// stem of its name; any other shape is rejected, saying why.
pub fn parse_import_name(file_path: &str) -> (r: Result<ImportedName, AppError>)
    ensures
        match file_stem_of(file_path@) {
            None => r matches Err(AppError::Validation(m)) && m@ == "Invalid filename"@,
            Some(stem) => {
                let parts = split4(stem);
                if parts.len() < 4 {
                    r matches Err(AppError::Validation(m)) && m@ == "Invalid filename format: "@ + stem
                        + ". Expected: {character}_{direction}_{animation}_{frame}.png"@
                } else {
                    match parse_i32_spec(parts[3]) {
                        None => r matches Err(AppError::Validation(m)) && m@ == "Invalid frame index: "@ + parts[3],
                        Some(f) => r matches Ok(n) && n.direction@ == parts[1] && n.animation@ == parts[2]
                            && n.frame_index == f,
                    }
                }
            },
        },
{
    let name = match file_name(file_path) {
        Some(n) => n,
        None => return Err(AppError::Validation(message("Invalid filename"))),
    };
    let (stem, _) = split_file_name(name.as_str());
    let sv = chars_of(stem.as_str());
    let parts = split4_chars(&sv);
    proof {
        assert(parts@.map_values(|p: Vec<char>| p@).len() == parts.len());
    }
    if parts.len() < 4 {
        let mut m = message_with("Invalid filename format: ", stem.as_str());
        m.append(". Expected: {character}_{direction}_{animation}_{frame}.png");
        return Err(AppError::Validation(m));
    }
    proof {
        assert(parts@.map_values(|p: Vec<char>| p@)[3] == parts@[3]@);
        assert(parts@.map_values(|p: Vec<char>| p@)[1] == parts@[1]@);
        assert(parts@.map_values(|p: Vec<char>| p@)[2] == parts@[2]@);
    }
    match parse_i32_chars(&parts[3]) {
        None => {
            let frame_text = string_from_chars(&parts[3]);
            Err(AppError::Validation(message_with("Invalid frame index: ", frame_text.as_str())))
        },
        Some(f) => Ok(ImportedName {
            direction: string_from_chars(&parts[1]),
            animation: string_from_chars(&parts[2]),
            frame_index: f,
        }),
    }
}

/// The sprite created for an imported file, copied into `raw_dir` under
/// its own name.
pub fn import_sprite_input(character_id: &str, raw_dir: &str, file_path: &str, name: ImportedName) -> (c: CreateSprite)
    requires
        file_name_of(file_path@) is Some,
    ensures
        c.character_id@ == character_id@,
        c.direction == name.direction,
        c.animation == name.animation,
        c.frame_index == name.frame_index,
        c.raw_path matches Some(p) && p@ == join_path(raw_dir@, file_name_of(file_path@)->0),
{
    let f = match file_name(file_path) {
        Some(f) => f,
        None => String::new(),
    };
    CreateSprite {
        character_id: character_id.to_owned(),
        direction: name.direction,
        animation: name.animation,
        frame_index: name.frame_index,
        raw_path: Some(join(raw_dir, f.as_str())),
    }
}

} // verus!
