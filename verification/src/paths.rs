//! File names, and the paths under which clients see sources.
use vstd::prelude::*;
use crate::ids::{id_text, id_text_len, id_texts_differ, text_of_id, Id};
use crate::model::opt_view;
use crate::text::{replace_char, rfind, split};

verus! {

/// The last of the parts of a path that names something: one that is neither
/// empty nor a point.
pub open spec fn last_component(parts: Seq<Seq<char>>) -> Option<Seq<char>>
    decreases parts.len(),
{
    if parts.len() == 0 {
        None
    } else if parts.last().len() == 0 || parts.last() == seq!['.'] {
        last_component(parts.drop_last())
    } else {
        Some(parts.last())
    }
}

/// The file name that a path ends with, where the given separator parts it. A path
/// that ends with `..` has none.
pub open spec fn file_name(path: Seq<char>, separator: char) -> Option<Seq<char>> {
    match last_component(split(path, seq![separator])) {
        Some(name) => if name == seq!['.', '.'] {
            None
        } else {
            Some(name)
        },
        None => None,
    }
}

/// A file name up to its last point. A point that it starts with does not count.
pub open spec fn stem_of_name(name: Seq<char>) -> Seq<char> {
    match rfind(name, seq!['.'], name.len() - 1) {
        Some(i) => if i == 0 {
            name
        } else {
            name.take(i)
        },
        None => name,
    }
}

/// The file name that a path ends with, without its extension, where the given
/// separator parts the path.
pub open spec fn stem_behind(path: Seq<char>, separator: char) -> Option<Seq<char>> {
    match file_name(path, separator) {
        Some(name) => Some(stem_of_name(name)),
        None => None,
    }
}

/// The stem of a path that slashes part, as on Unix.
pub open spec fn file_stem(path: Seq<char>) -> Option<Seq<char>> {
    stem_behind(path, '/')
}

/// The stem of a path that both slashes and backslashes part.
pub open spec fn file_stem_of_both(path: Seq<char>) -> Option<Seq<char>> {
    stem_behind(replace_char(path, '\\', '/'), '/')
}

/// Whether a path starts with a drive, which is a letter and a colon.
pub open spec fn starts_with_drive(path: Seq<char>) -> bool {
    &&& path.len() >= 2
    &&& 'a' <= path[0] <= 'z' || 'A' <= path[0] <= 'Z'
    &&& path[1] == ':'
}

/// Whether a path starts with two separators, each a slash or a backslash. On
/// Windows such a path may start with the name of a server or of a device.
pub open spec fn starts_with_two_separators(path: Seq<char>) -> bool {
    &&& path.len() >= 2
    &&& path[0] == '/' || path[0] == '\\'
    &&& path[1] == '/' || path[1] == '\\'
}

/// Whether a text may be the stem of a path on Windows.
///
/// Both separators part a path there, and a drive is no part of a file name. Of a
/// path that starts with two separators the name of a server or of a device may
/// take all, so that no file name is left, or may let backslashes alone part the
/// rest.
pub open spec fn may_be_windows_stem(path: Seq<char>, stem: Option<Seq<char>>) -> bool {
    if starts_with_two_separators(path) {
        stem is None || stem == file_stem_of_both(path) || stem == stem_behind(path, '\\')
    } else if starts_with_drive(path) {
        stem == file_stem_of_both(path.skip(2))
    } else {
        stem == file_stem_of_both(path)
    }
}

/// Whether a text may be what the system takes for the stem of a path: that on
/// Unix or that on Windows.
pub open spec fn may_be_stem(path: Seq<char>, stem: Option<Seq<char>>) -> bool {
    stem == file_stem(path) || may_be_windows_stem(path, stem)
}

/// Whether a path means the same on every system: it has no backslash, and starts
/// neither with a drive nor with two slashes.
pub open spec fn is_portable(path: Seq<char>) -> bool {
    !path.contains('\\') && !starts_with_drive(path) && !starts_with_two_separators(path)
}

/// `std::path::Path::file_stem`: the last component of a path up to the last point
/// that it does not start with, nothing where the path ends with no file name. It
/// follows the system in what parts a path and in what a path may start with, so
/// the contract says that the stem is the one on Unix or one on Windows. What is
/// left unsaid is which of the two systems it is, and where the name of a server
/// or of a device ends that a path on Windows starts with.
#[verifier::external_body]
fn stem_of_path(path: &str) -> (r: Option<String>)
    ensures
        may_be_stem(path@, opt_view(r)),
{
    let stem = std::path::Path::new(path).file_stem()?;
    Some(stem.to_str()?.to_string())
}

/// The path under which a client sees a source: its identifier, and the stem of
/// its file name where it has one.
pub open spec fn source_path(id: Id, stem: Option<Seq<char>>) -> Seq<char> {
    let plain = "/remux/"@ + id_text(id);
    match stem {
        Some(stem) => plain + "/"@ + stem,
        None => plain,
    }
}

/// Whether a text may be the path under which a client sees the source of the
/// given file name: one with what may be the stem of the name.
pub open spec fn is_path_of_name(id: Id, name: Seq<char>, path: Seq<char>) -> bool {
    exists|stem: Option<Seq<char>>| #[trigger]
        may_be_stem(name, stem) && path == source_path(id, stem)
}

/// Whether a text may be the path under which a client sees a source that has a
/// file name or has none.
pub open spec fn is_path_of(id: Id, filename: Option<Seq<char>>, path: Seq<char>) -> bool {
    match filename {
        Some(name) => is_path_of_name(id, name, path),
        None => path == source_path(id, None),
    }
}

/// The path under which a client sees a source, for the stem of its file name.
pub fn path_with_stem(id: Id, stem: &Option<String>) -> (r: String)
    ensures
        r@ == source_path(id, opt_view(*stem)),
{
    let mut out: String = "/remux/".to_owned();
    out.append(text_of_id(id).as_str());
    if let Some(stem) = stem {
        out.append("/");
        out.append(stem.as_str());
    }
    out
}

/// The path under which a client sees a source.
pub fn path_of_source(id: Id, filename: &Option<String>) -> (r: String)
    ensures
        is_path_of(id, opt_view(*filename), r@),
{
    match filename {
        Some(name) => {
            let stem: Option<String> = stem_of_path(name.as_str());
            let ghost found: Option<Seq<char>> = if stem is Some {
                Some(stem->0@)
            } else {
                None
            };
            assert(may_be_stem(name@, found));
            path_with_stem(id, &stem)
        },
        None => path_with_stem(id, &None),
    }
}

/// A source whose file name means the same on every system has one path.
pub proof fn portable_names_have_one_path(id: Id, filename: Option<Seq<char>>, path: Seq<char>)
    requires
        filename matches Some(name) ==> is_portable(name),
        is_path_of(id, filename, path),
    ensures
        path == source_path(
            id,
            match filename {
                Some(name) => file_stem(name),
                None => None,
            },
        ),
{
    if let Some(name) = filename {
        assert forall|i: int| 0 <= i < name.len() implies #[trigger] name[i] != '\\' by {
            assert(name.contains(name[i]));
        }
        assert(replace_char(name, '\\', '/') =~= name);
    }
}

/// A source whose file name does not start with two separators shows the stem of
/// the name that there is on Unix, or the one that there is on Windows.
pub proof fn names_have_two_paths_at_most(id: Id, name: Seq<char>, path: Seq<char>)
    requires
        !starts_with_two_separators(name),
        is_path_of(id, Some(name), path),
    ensures
        path == source_path(id, file_stem(name)) || path == source_path(
            id,
            file_stem_of_both(
                if starts_with_drive(name) {
                    name.skip(2)
                } else {
                    name
                },
            ),
        ),
{
}

/// Every path of a source starts with the identifier of the source, so that two
/// sources never have the same path.
pub proof fn paths_of_sources_differ(
    a: Id,
    a_name: Option<Seq<char>>,
    b: Id,
    b_name: Option<Seq<char>>,
    path: Seq<char>,
)
    requires
        is_path_of(a, a_name, path),
        is_path_of(b, b_name, path),
    ensures
        a == b,
{
    lemma_path_start(a, a_name, path);
    lemma_path_start(b, b_name, path);
    id_texts_differ(a, b);
}

proof fn lemma_path_start(id: Id, filename: Option<Seq<char>>, path: Seq<char>)
    requires
        is_path_of(id, filename, path),
    ensures
        path.len() >= 43,
        path.subrange(7, 43) == id_text(id),
{
    reveal_strlit("/remux/");
    id_text_len(id);
    let stem = match filename {
        Some(name) => choose|stem: Option<Seq<char>>| #[trigger]
            may_be_stem(name, stem) && path == source_path(id, stem),
        None => None,
    };
    assert(path == source_path(id, stem));
    assert(path.subrange(7, 43) =~= id_text(id));
}

} // verus!
