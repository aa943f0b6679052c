//! Small text helpers for showing records.
use crate::masters::names_with;
use crate::models::{person_views, MasterVideo, PersonType};
use crate::text::{join, join_strs, split, split_str, views};
use vstd::prelude::*;
use vstd::string::*;

verus! {

/// The parts of a `/`-separated path that name something: empty parts and
/// `.` parts are dropped.
pub open spec fn path_parts(s: Seq<char>) -> Seq<Seq<char>> {
    split(s, seq!['/']).filter(|p: Seq<char>| p.len() > 0 && p != seq!['.'])
}

/// The path starts at the root, or at a leading `.`: either counts as a
/// component before its named parts, as `Path::components` gives it.
pub open spec fn has_lead(s: Seq<char>) -> bool {
    s.len() > 0 && (s[0] == '/' || (s[0] == '.' && (s.len() == 1 || s[1] == '/')))
}

/// A path without its first two components, the rest joined by `/`. The
/// root, or a leading `.`, is a component.
pub open spec fn without_first_two(s: Seq<char>) -> Seq<char> {
    let parts = path_parts(s);
    let skip: int = if has_lead(s) {
        1
    } else {
        2
    };
    if parts.len() <= skip {
        Seq::empty()
    } else {
        join(parts.skip(skip), seq!['/'])
    }
}

/// The named parts of a path.
pub fn path_parts_of(path: &str) -> (r: Vec<String>)
    ensures
        views(r@) == path_parts(path@),
{
    proof {
        reveal_strlit("/");
        reveal_strlit(".");
        assert("/"@ =~= seq!['/']);
        assert("."@ =~= seq!['.']);
    }
    let pieces = split_str(path, "/");
    let ghost ps = views(pieces@);
    let mut parts: Vec<String> = Vec::new();
    let mut i: usize = 0;
    while i < pieces.len()
        invariant
            ps == views(pieces@),
            "."@ == seq!['.'],
            i <= pieces@.len(),
            views(parts@) == ps.take(i as int).filter(
                |p: Seq<char>| p.len() > 0 && p != seq!['.'],
            ),
        decreases pieces.len() - i,
    {
        proof {
            assert(ps.take(i + 1).drop_last() =~= ps.take(i as int));
            assert(ps.take(i + 1).last() == pieces@[i as int]@);
            reveal(Seq::filter);
        }
        let keep = !pieces[i].as_str().is_empty() && !crate::text::equal_strs(
            pieces[i].as_str(),
            ".",
        );
        if keep {
            let ghost before = views(parts@);
            parts.push(pieces[i].clone());
            assert(views(parts@) =~= before.push(pieces@[i as int]@));
        }
        i = i + 1;
    }
    assert(ps.take(pieces@.len() as int) =~= ps);
    parts
}

/// Whether the path starts at the root or at a leading `.`.
fn has_lead_of(path: &str) -> (r: bool)
    ensures
        r == has_lead(path@),
{
    let n = path.unicode_len();
    if n == 0 {
        return false;
    }
    let c = path.get_char(0);
    c == '/' || (c == '.' && (n == 1 || path.get_char(1) == '/'))
}

/// The path without its first two components.
pub fn strip_first_two_directories(path: &str) -> (r: String)
    ensures
        r@ == without_first_two(path@),
{
    proof {
        reveal_strlit("/");
        assert("/"@ =~= seq!['/']);
    }
    let parts = path_parts_of(path);
    let skip: usize = if has_lead_of(path) {
        1
    } else {
        2
    };
    if parts.len() <= skip {
        return String::new();
    }
    let mut rest: Vec<String> = Vec::new();
    let mut j: usize = skip;
    while j < parts.len()
        invariant
            skip <= j <= parts@.len(),
            rest@.len() == j - skip,
            forall|k: int| 0 <= k < j - skip ==> #[trigger] rest@[k] == parts@[k + skip],
        decreases parts.len() - j,
    {
        rest.push(parts[j].clone());
        j = j + 1;
    }
    assert(views(rest@) =~= views(parts@).skip(skip as int));
    join_strs(&rest, "/")
}

impl MasterVideo {
    /// A role list as one line: `Label:` and then the names of the people in
    /// that role, separated by `; `.
    pub fn people_as_string(&self, prefix: &str, person_type: PersonType) -> (r: String)
        ensures
            r@ == prefix@ + seq![':'] + join(
                names_with(person_views(self.people@), person_type),
                seq![';', ' '],
            ),
    {
        proof {
            reveal_strlit(":");
            reveal_strlit("; ");
            assert(":"@ =~= seq![':']);
            assert("; "@ =~= seq![';', ' ']);
        }
        let names = crate::masters::names_with_type(&self.people, person_type);
        let joined = join_strs(&names, "; ");
        String::from_str(prefix).concat(":").concat(joined.as_str())
    }
}


/// The last component of a path, when it names a file: none for a path
/// without named parts or one that ends in `..`.
pub open spec fn file_name(s: Seq<char>) -> Option<Seq<char>> {
    let parts = path_parts(s);
    if parts.len() == 0 || parts.last() == seq!['.', '.'] {
        None
    } else {
        Some(parts.last())
    }
}

/// What follows the last `.` of a file name, unless the name has no `.` or
/// its only `.` starts it.
pub open spec fn extension(name: Seq<char>) -> Option<Seq<char>> {
    let k = crate::timestamps::last_before(name, '.', name.len() as int);
    if k <= 0 {
        None
    } else {
        Some(name.subrange(k + 1, name.len() as int))
    }
}

pub open spec fn video_extensions() -> Seq<Seq<char>> {
    seq![
        "avi"@,
        "mp4"@,
        "mov"@,
        "wmv"@,
        "mpg"@,
        "mpe"@,
        "mpeg"@,
        "asf"@,
        "asx"@,
        "m1v"@,
        "vob"@,
    ]
}

/// Whether a path names a video file, by its extension, in any case of
/// letters.
pub open spec fn is_video_path(s: Seq<char>) -> bool {
    match file_name(s) {
        None => false,
        Some(name) => match extension(name) {
            Some(e) => exists|i: int|
                0 <= i < video_extensions().len() && crate::fields::same_word(
                    e,
                    #[trigger] video_extensions()[i],
                ),
            None => false,
        },
    }
}

/// Whether the path names a video file.
pub fn is_video_file(path: &str) -> (r: bool)
    ensures
        r == is_video_path(path@),
{
    proof {
        reveal_strlit("..");
        assert(".."@ =~= seq!['.', '.']);
    }
    let parts = path_parts_of(path);
    if parts.len() == 0 {
        return false;
    }
    let last = parts.len() - 1;
    assert(views(parts@)[last as int] == parts@[last as int]@);
    let name = parts[last].as_str();
    if crate::text::equal_strs(name, "..") {
        return false;
    }
    assert(file_name(path@) == Some(name@));
    let n = name.unicode_len();
    let mut k: usize = n;
    while k > 0 && name.get_char(k - 1) != '.'
        invariant
            k <= n,
            n == name@.len(),
            crate::timestamps::last_before(name@, '.', n as int) == crate::timestamps::last_before(
                name@,
                '.',
                k as int,
            ),
        decreases k,
    {
        k = k - 1;
    }
    assert(crate::timestamps::last_before(name@, '.', k as int) == k - 1);
    if k <= 1 {
        return false;
    }
    let ext = name.substring_char(k, n);
    assert(extension(name@) == Some(ext@));
    let exts = vec!["avi", "mp4", "mov", "wmv", "mpg", "mpe", "mpeg", "asf", "asx", "m1v", "vob"];
    assert(exts@.map_values(|e: &str| e@) =~= video_extensions());
    let mut i: usize = 0;
    while i < exts.len()
        invariant
            exts@.map_values(|e: &str| e@) == video_extensions(),
            i <= exts@.len(),
            file_name(path@) == Some(name@),
            extension(name@) == Some(ext@),
            forall|j: int| 0 <= j < i ==> !crate::fields::same_word(ext@, #[trigger] video_extensions()[j]),
        decreases exts.len() - i,
    {
        assert(exts@.map_values(|e: &str| e@)[i as int] == exts@[i as int]@);
        if crate::fields::same_word_of(ext, exts[i]) {
            assert(crate::fields::same_word(ext@, video_extensions()[i as int]));
            return true;
        }
        i = i + 1;
    }
    false
}

} // verus!
