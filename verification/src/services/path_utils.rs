//! Making names safe for the file system, and checking paths that users give.
use vstd::prelude::*;
use crate::error::{message, message_with, AppError};
use crate::posix_path::{
    has_parent_component, is_absolute, join_path, lemma_split_concat, parent_dir, split_by, split_chars, views, Separator,
};
use crate::text::{ascii_lower, chars_of, is_ascii_alnum, is_blank, is_blank_str, string_from_chars, to_ascii_lower};

verus! {

/// How one character of a name appears in its safe form: ASCII letters,
/// digits, `_` and `-` stay (letters in lower case), all else becomes `_`.
pub open spec fn sanitized_char(c: char) -> char {
    if is_ascii_alnum(c) || c == '_' || c == '-' {
        ascii_lower(c)
    } else {
        '_'
    }
}

/// The safe form of a name, character by character.
pub open spec fn sanitized(name: Seq<char>) -> Seq<char> {
    name.map_values(|c: char| sanitized_char(c))
}

/// Does the name hold at least one ASCII letter or digit?
pub open spec fn has_ascii_alnum(name: Seq<char>) -> bool {
    exists|i: int| 0 <= i < name.len() && is_ascii_alnum(#[trigger] name[i])
}

pub open spec fn empty_name_message() -> Seq<char> {
    "ファイル名が空です"@
}

pub open spec fn no_alnum_message_prefix() -> Seq<char> {
    "ファイル名に有効な英数字が含まれていません: "@
}

/// Turns a name into a safe file name: characters other than ASCII letters,
/// digits, `_` and `-` become `_`, and letters become lower case. A name
/// that is blank, or that holds no ASCII letter or digit, is refused.
pub fn sanitize_filename(name: &str) -> (r: Result<String, AppError>)
    ensures
        is_blank(name@) ==> (r matches Err(AppError::Validation(m))
            && m@ == empty_name_message()),
        !is_blank(name@) && !has_ascii_alnum(name@) ==> (r matches Err(AppError::Validation(m))
            && m@ == no_alnum_message_prefix() + name@),
        !is_blank(name@) && has_ascii_alnum(name@) ==> (r matches Ok(s)
            && s@ == sanitized(name@)),
{
    if is_blank_str(name) {
        return Err(AppError::Validation(message("ファイル名が空です")));
    }
    let v = chars_of(name);
    let mut out: Vec<char> = Vec::new();
    let mut any_alnum = false;
    let mut i: usize = 0;
    while i < v.len()
        invariant
            v@ == name@,
            i <= v.len(),
            out@ == sanitized(v@.take(i as int)),
            any_alnum == has_ascii_alnum(v@.take(i as int)),
        decreases v.len() - i,
    {
        let c = v[i];
        let alnum = ('0' <= c && c <= '9') || ('a' <= c && c <= 'z') || ('A' <= c && c <= 'Z');
        let mapped = if alnum || c == '_' || c == '-' {
            to_ascii_lower(c)
        } else {
            '_'
        };
        out.push(mapped);
        proof {
            let t = v@.take(i + 1);
            assert(t =~= v@.take(i as int).push(c));
            assert(sanitized(t) =~= sanitized(v@.take(i as int)).push(mapped));
            if alnum {
                assert(t[i as int] == c);
            }
            if has_ascii_alnum(t) && !alnum {
                let j = choose|j: int| 0 <= j < t.len() && is_ascii_alnum(#[trigger] t[j]);
                assert(v@.take(i as int)[j] == t[j]);
            }
            if has_ascii_alnum(v@.take(i as int)) {
                let j = choose|j: int| 0 <= j < i && is_ascii_alnum(#[trigger] v@.take(i as int)[j]);
                assert(t[j] == v@.take(i as int)[j]);
            }
        }
        any_alnum = any_alnum || alnum;
        i = i + 1;
    }
    proof {
        assert(v@.take(v.len() as int) =~= v@);
    }
    if !any_alnum {
        return Err(AppError::Validation(message_with("ファイル名に有効な英数字が含まれていません: ", name)));
    }
    Ok(string_from_chars(&out))
}

pub open spec fn absolute_path_message() -> Seq<char> {
    "絶対パスは許可されていません"@
}

pub open spec fn parent_dir_message() -> Seq<char> {
    "パスに '..' を含めることはできません"@
}

/// Checks a path that a user typed: it must be relative and must not climb
/// out of its base with a `..` component.
pub fn validate_user_path(input: &str) -> (r: Result<(), AppError>)
    ensures
        is_absolute(input@) ==> (r matches Err(AppError::Validation(m))
            && m@ == absolute_path_message()),
        !is_absolute(input@) && has_parent_component(input@) ==> (r matches Err(AppError::Validation(m))
            && m@ == parent_dir_message()),
        !is_absolute(input@) && !has_parent_component(input@) ==> r is Ok,
{
    let v = chars_of(input);
    if v.len() > 0 && v[0] == '/' {
        return Err(AppError::Validation(message("絶対パスは許可されていません")));
    }
    let pieces = split_chars(&v, Separator::Slash);
    let mut k: usize = 0;
    while k < pieces.len()
        invariant
            v@ == input@,
            !is_absolute(input@),
            views(pieces@) == split_by(input@, Separator::Slash),
            k <= pieces.len(),
            forall|j: int| 0 <= j < k ==> #[trigger] split_by(input@, Separator::Slash)[j] != parent_dir(),
        decreases pieces.len() - k,
    {
        let p = &pieces[k];
        let dotdot = p.len() == 2 && p[0] == '.' && p[1] == '.';
        proof {
            assert(split_by(input@, Separator::Slash)[k as int] == p@);
            if dotdot {
                assert(p@ =~= parent_dir());
            }
        }
        if dotdot {
            return Err(AppError::Validation(message("パスに '..' を含めることはできません")));
        }
        k = k + 1;
    }
    Ok(())
}

/// The components of `base` that a path joined to it keeps: all of them,
/// but for the empty one after a trailing `/`.
pub open spec fn base_components(base: Seq<char>) -> Seq<Seq<char>> {
    if base.len() == 0 {
        Seq::empty()
    } else if base.last() == '/' {
        split_by(base, Separator::Slash).drop_last()
    } else {
        split_by(base, Separator::Slash)
    }
}

/// A path that `validate_user_path` accepts cannot leave its base: joined
/// to any base, its components follow the base's own, and none of them is
/// `..`.
pub proof fn lemma_accepted_path_stays_in_base(base: Seq<char>, input: Seq<char>)
    requires
        !is_absolute(input),
        !has_parent_component(input),
    ensures
        split_by(join_path(base, input), Separator::Slash) == base_components(base) + split_by(input, Separator::Slash),
        forall|k: int| base_components(base).len() <= k < split_by(join_path(base, input), Separator::Slash).len()
            ==> #[trigger] split_by(join_path(base, input), Separator::Slash)[k] != parent_dir(),
{
    let pieces = split_by(input, Separator::Slash);
    if base.len() == 0 {
        assert(base + input =~= input);
        assert(base_components(base) + pieces =~= pieces);
    } else if base.last() == '/' {
        let a = base.drop_last();
        assert(base =~= a + seq!['/']);
        assert(base + input =~= a + seq!['/'] + input);
        lemma_split_concat(Separator::Slash, a, '/', input);
        assert(base.drop_last() =~= a);
        assert(split_by(base, Separator::Slash) == split_by(a, Separator::Slash).push(Seq::<char>::empty()));
        assert(split_by(base, Separator::Slash).drop_last() =~= split_by(a, Separator::Slash));
    } else {
        lemma_split_concat(Separator::Slash, base, '/', input);
    }
    let joined = split_by(join_path(base, input), Separator::Slash);
    let n = base_components(base).len();
    assert forall|k: int| n <= k < joined.len() implies #[trigger] joined[k] != parent_dir() by {
        assert(joined[k] == pieces[k - n]);
        if pieces[k - n] == parent_dir() {
            assert(has_parent_component(input));
        }
    }
}

/// A safe name is its own safe form.
pub proof fn lemma_sanitize_idempotent(name: Seq<char>)
    ensures
        sanitized(sanitized(name)) == sanitized(name),
{
    assert(sanitized(sanitized(name)) =~= sanitized(name));
}

} // verus!
