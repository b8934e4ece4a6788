//! Locations as text: taking a location apart into directory, file name,
//! stem and extension, and deriving the locations of outputs from the
//! location of an input. Both `/` and `\` separate the parts of a location,
//! and separators at the end of a location count for nothing.

use vstd::prelude::*;
use crate::text::join3;

verus! {

/// `c` separates the parts of a location.
pub open spec fn is_separator(c: char) -> bool {
    c == '/' || c == '\\'
}

/// Where the file name of `path` starts: behind its last separator.
pub open spec fn name_start(path: Seq<char>) -> int
    decreases path.len(),
{
    if path.len() == 0 {
        0
    } else if is_separator(path.last()) {
        path.len() as int
    } else {
        name_start(path.drop_last())
    }
}

/// How long `path` is without the separators at its end.
pub open spec fn name_end(path: Seq<char>) -> int
    decreases path.len(),
{
    if path.len() == 0 {
        0
    } else if is_separator(path.last()) {
        name_end(path.drop_last())
    } else {
        path.len() as int
    }
}

/// `path` without the separators at its end.
pub open spec fn bare(path: Seq<char>) -> Seq<char> {
    path.take(name_end(path))
}

/// What stands behind the last separator of `path`.
pub open spec fn last_part(path: Seq<char>) -> Seq<char> {
    path.subrange(name_start(path), path.len() as int)
}

/// What stands before the last part of `path`, the last separator included.
pub open spec fn lead(path: Seq<char>) -> Seq<char> {
    path.subrange(0, name_start(path))
}

/// The file name of `path`: its last part that is not empty, which is what
/// stands behind the last separator once the separators at the end are left
/// off.
pub open spec fn file_name(path: Seq<char>) -> Seq<char> {
    last_part(bare(path))
}

/// What stands before the file name of `path`, the last separator included.
pub open spec fn directory(path: Seq<char>) -> Seq<char> {
    lead(bare(path))
}

/// Where the last point of `name` stands, or -1 where it has none.
pub open spec fn last_point(name: Seq<char>) -> int
    decreases name.len(),
{
    if name.len() == 0 {
        -1
    } else if name.last() == '.' {
        name.len() - 1
    } else {
        last_point(name.drop_last())
    }
}

/// The file name without its extension: what stands before its last point,
/// or all of it where it has no point or only one at its start.
pub open spec fn stem(name: Seq<char>) -> Seq<char> {
    if last_point(name) <= 0 {
        name
    } else {
        name.subrange(0, last_point(name))
    }
}

/// The extension of a file name: what stands behind its last point, if it has
/// a point that is not at its start.
pub open spec fn extension(name: Seq<char>) -> Option<Seq<char>> {
    if last_point(name) <= 0 {
        None
    } else {
        Some(name.subrange(last_point(name) + 1, name.len() as int))
    }
}

/// `path` ends in the name of a file: a name other than `.` and `..`.
pub open spec fn names_a_file(path: Seq<char>) -> bool {
    file_name(path).len() > 0 && file_name(path) != seq!['.'] && file_name(path) != seq!['.', '.']
}

/// The directory that holds `path`: what stands before the separator in
/// front of its file name, or that separator alone where nothing stands
/// before it.
pub open spec fn parent(path: Seq<char>) -> Seq<char> {
    if name_start(bare(path)) <= 1 {
        directory(path)
    } else {
        bare(path).subrange(0, name_start(bare(path)) - 1)
    }
}

/// Where a converted copy of the item at `input` is put when the node names
/// no place: beside the input, under the input's name with `_converted`
/// behind its stem and `format` as its extension.
pub open spec fn converted_location(input: Seq<char>, format: Seq<char>) -> Seq<char> {
    directory(input) + stem(file_name(input)) + "_converted."@ + format
}

/// The pattern under which the frames of the item at `input` are put when the
/// node names no place: in a directory beside the input that is named after
/// the input's stem with `_frames` behind it, each frame under the stem, an
/// underscore, a number of four digits and `format` as its extension.
pub open spec fn frames_pattern(input: Seq<char>, format: Seq<char>) -> Seq<char> {
    directory(input) + stem(file_name(input)) + "_frames/"@ + stem(file_name(input)) + "_%04d."@
        + format
}

/// The lowercase form of a text, as the Unicode tables of the standard
/// library give it.
pub uninterp spec fn lowercase(text: Seq<char>) -> Seq<char>;

/// `str::to_lowercase` of the standard library: the text with every character
/// replaced by its lowercase form.
#[verifier::external_body]
pub(crate) fn to_lowercase(text: &str) -> (lowered: String)
    ensures
        lowered@ == lowercase(text@),
{
    text.to_lowercase()
}

/// Where the file name of `path` starts.
pub fn find_name_start(path: &str) -> (start: usize)
    ensures
        start == name_start(path@),
        start <= path@.len(),
{
    let n = path.unicode_len();
    let mut i = n;
    proof {
        assert(path@.take(n as int) =~= path@);
    }
    while i > 0
        invariant
            n == path@.len(),
            i <= n,
            name_start(path@) == name_start(path@.take(i as int)),
        decreases i,
    {
        let c = path.get_char(i - 1);
        proof {
            assert(path@.take(i as int).last() == path@[i - 1]);
            assert(path@.take(i as int).drop_last() =~= path@.take(i - 1));
        }
        if c == '/' || c == '\\' {
            return i;
        }
        i = i - 1;
    }
    0
}

/// How long `path` is without the separators at its end.
pub fn find_name_end(path: &str) -> (end: usize)
    ensures
        end == name_end(path@),
        end <= path@.len(),
{
    let n = path.unicode_len();
    let mut i = n;
    proof {
        assert(path@.take(n as int) =~= path@);
    }
    while i > 0
        invariant
            n == path@.len(),
            i <= n,
            name_end(path@) == name_end(path@.take(i as int)),
        decreases i,
    {
        let c = path.get_char(i - 1);
        proof {
            assert(path@.take(i as int).last() == path@[i - 1]);
            assert(path@.take(i as int).drop_last() =~= path@.take(i - 1));
        }
        if !(c == '/' || c == '\\') {
            return i;
        }
        i = i - 1;
    }
    0
}

/// `path` without the separators at its end.
pub fn without_end(path: &str) -> (short: &str)
    ensures
        short@ == bare(path@),
{
    let end = find_name_end(path);
    let short = path.substring_char(0, end);
    assert(short@ =~= bare(path@));
    short
}

/// Where the last point of `name` stands; the length of `name` where it has
/// none.
fn find_last_point(name: &str) -> (place: usize)
    ensures
        place <= name@.len(),
        place < name@.len() ==> last_point(name@) == place,
        place == name@.len() ==> last_point(name@) == -1,
{
    let n = name.unicode_len();
    let mut i = n;
    proof {
        assert(name@.take(n as int) =~= name@);
    }
    while i > 0
        invariant
            n == name@.len(),
            i <= n,
            last_point(name@) == last_point(name@.take(i as int)),
        decreases i,
    {
        let c = name.get_char(i - 1);
        proof {
            assert(name@.take(i as int).last() == name@[i - 1]);
            assert(name@.take(i as int).drop_last() =~= name@.take(i - 1));
        }
        if c == '.' {
            return i - 1;
        }
        i = i - 1;
    }
    n
}

/// The three parts of a location: its directory, the stem of its file name
/// and, where there is one, the extension of its file name.
pub fn split_location(path: &str) -> (parts: (String, String, Option<String>))
    ensures
        parts.0@ == directory(path@),
        parts.1@ == stem(file_name(path@)),
        match parts.2 {
            Some(found) => extension(file_name(path@)) == Some(found@),
            None => extension(file_name(path@)) is None,
        },
{
    let path = without_end(path);
    let n = path.unicode_len();
    let start = find_name_start(path);
    let folder = String::from_str(path.substring_char(0, start));
    let name = path.substring_char(start, n);
    let point = find_last_point(name);
    let length = name.unicode_len();
    if point == 0 || point >= length {
        (folder, String::from_str(name), None)
    } else {
        (
            folder,
            String::from_str(name.substring_char(0, point)),
            Some(String::from_str(name.substring_char(point + 1, length))),
        )
    }
}

/// Whether `path` ends in the name of a file.
pub fn has_file_name(path: &str) -> (named: bool)
    ensures
        named == names_a_file(path@),
{
    let path = without_end(path);
    let n = path.unicode_len();
    let start = find_name_start(path);
    let length = n - start;
    let ghost name = last_part(path@);
    if length == 0 {
        false
    } else if length == 1 {
        proof {
            assert(name != seq!['.', '.']) by {
                assert(seq!['.', '.'].len() == 2);
            }
            if name[0] == '.' {
                assert(name =~= seq!['.']);
            } else {
                assert(seq!['.'][0] == '.');
            }
        }
        path.get_char(start) != '.'
    } else if length == 2 {
        proof {
            assert(name != seq!['.']) by {
                assert(seq!['.'].len() == 1);
            }
            if name[0] == '.' && name[1] == '.' {
                assert(name =~= seq!['.', '.']);
            } else {
                assert(seq!['.', '.'][0] == '.' && seq!['.', '.'][1] == '.');
            }
        }
        !(path.get_char(start) == '.' && path.get_char(start + 1) == '.')
    } else {
        proof {
            assert(seq!['.'].len() == 1);
            assert(seq!['.', '.'].len() == 2);
        }
        true
    }
}

/// The directory that holds `path`.
pub fn parent_directory(path: &str) -> (folder: String)
    ensures
        folder@ == parent(path@),
{
    let short = without_end(path);
    let start = find_name_start(short);
    let folder = if start <= 1 {
        short.substring_char(0, start)
    } else {
        short.substring_char(0, start - 1)
    };
    assert(folder@ =~= parent(path@));
    String::from_str(folder)
}

/// Where a converted copy of the item at `input` is put when the node names
/// no place; `None` where `input` does not end in the name of a file.
pub fn derive_converted_location(input: &str, format: &str) -> (location: Option<String>)
    ensures
        match location {
            Some(place) => names_a_file(input@) && place@ == converted_location(input@, format@),
            None => !names_a_file(input@),
        },
{
    if !has_file_name(input) {
        return None;
    }
    let (folder, stem, _) = split_location(input);
    let name = join3(stem.as_str(), "_converted.", format);
    Some(folder.concat(name.as_str()))
}

/// The pattern under which the frames of the item at `input` are put when the
/// node names no place; `None` where `input` does not end in the name of a
/// file.
pub fn derive_frames_pattern(input: &str, format: &str) -> (pattern: Option<String>)
    ensures
        match pattern {
            Some(place) => names_a_file(input@) && place@ == frames_pattern(input@, format@),
            None => !names_a_file(input@),
        },
{
    if !has_file_name(input) {
        return None;
    }
    let (folder, stem, _) = split_location(input);
    let first = join3(folder.as_str(), stem.as_str(), "_frames/");
    let second = join3(stem.as_str(), "_%04d.", format);
    Some(first.concat(second.as_str()))
}

/// Questions about files that need no look at the disk.
pub struct FileUtils;

impl FileUtils {
    /// The extension of the file that `path` names, in lowercase; `unknown`
    /// where it has none.
    pub fn get_file_extension(path: &str) -> (found: String)
        ensures
            found@ == match extension(file_name(path@)) {
                Some(text) => lowercase(text),
                None => "unknown"@,
            },
    {
        let (_, _, found) = split_location(path);
        match found {
            Some(text) => to_lowercase(text.as_str()),
            None => String::from_str("unknown"),
        }
    }
}

} // verus!
