//! Path bookkeeping that the build shares: the file name of a path, with the
//! partial's extension stripped.

use vstd::prelude::*;

use crate::error::{CustomError, CustomErrorModel};
use crate::text::{find_last, remove_all, str_to_chars, subvec};

verus! {

/// `path` with every trailing `/` and every trailing bare `.` component
/// removed, as `std::path::Path` disregards them when it takes a file name:
/// `a/`, `a/.` and `a/./` all lead to `a`.
pub open spec fn strip_trailing(path: Seq<char>) -> Seq<char>
    decreases path.len(),
{
    if path.len() > 0 && (path[path.len() - 1] == '/' || (path[path.len() - 1] == '.' && (
    path.len() == 1 || path[path.len() - 2] == '/'))) {
        strip_trailing(path.drop_last())
    } else {
        path
    }
}

/// The file-name component of a slash-separated path, following
/// `std::path::Path::file_name`: trailing slashes and `.` components are
/// ignored, and there is no name when nothing remains or the path ends in a
/// `..` component.
pub open spec fn spec_file_name(path: Seq<char>) -> Option<Seq<char>> {
    let t = strip_trailing(path);
    let name = match find_last(t, '/') {
        Some(i) => t.subrange(i + 1, t.len() as int),
        None => t,
    };
    if name.len() == 0 || name == seq!['.', '.'] {
        None
    } else {
        Some(name)
    }
}

/// What [`path_file_name_to_string`] returns: the path's file name with every
/// `.html` removed, or the failure naming the path.
pub open spec fn spec_path_file_name(path: Seq<char>) -> Result<Seq<char>, CustomErrorModel> {
    match spec_file_name(path) {
        Some(name) => Ok(remove_all(name, ".html"@)),
        None => Err(
            CustomErrorModel::IOError("Could not find file name from \""@ + path + "\""@),
        ),
    }
}

/// The name of the file that `file_path` leads to, with every `.html`
/// removed; used to register partials under their bare names.
pub fn path_file_name_to_string(file_path: &str) -> (r: Result<String, CustomError>)
    ensures
        (match r {
            Ok(s) => spec_path_file_name(file_path@) == Ok::<_, CustomErrorModel>(s@),
            Err(e) => spec_path_file_name(file_path@) == Err::<Seq<char>, _>(e@),
        }),
{
    let chars = str_to_chars(file_path);
    let mut b: usize = chars.len();
    proof {
        assert(chars@.subrange(0, chars@.len() as int) =~= chars@);
    }
    while b > 0 && (chars[b - 1] == '/' || (chars[b - 1] == '.' && (b == 1 || chars[b - 2] == '/')))
        invariant
            0 <= b <= chars@.len(),
            strip_trailing(chars@) == strip_trailing(chars@.subrange(0, b as int)),
        decreases b,
    {
        proof {
            assert(chars@.subrange(0, b as int).drop_last() =~= chars@.subrange(0, b - 1));
        }
        b = b - 1;
    }
    let t = subvec(&chars, 0, b);
    proof {
        assert(strip_trailing(chars@) == t@);
    }
    let name = match crate::text::find_last_char(&t, '/') {
        Some(i) => subvec(&t, i + 1, t.len()),
        None => subvec(&t, 0, t.len()),
    };
    proof {
        assert(t@.subrange(0, t@.len() as int) =~= t@);
    }
    let dotdot = name.len() == 2 && name[0] == '.' && name[1] == '.';
    if name.len() == 0 || dotdot {
        proof {
            if dotdot {
                assert(name@ =~= seq!['.', '.']);
            }
        }
        let mut m: Vec<char> = Vec::new();
        crate::text::append_str(&mut m, "Could not find file name from \"");
        crate::text::append_str(&mut m, file_path);
        crate::text::append_str(&mut m, "\"");
        return Err(CustomError::IOError(crate::text::chars_to_string(&m)));
    }
    proof {
        assert(name@ != seq!['.', '.']) by {
            if name@ == seq!['.', '.'] {
                assert(name@.len() == 2);
            }
        }
        reveal_strlit(".html");
    }
    let stripped = crate::text::remove_all_chars(&name, ".html");
    Ok(crate::text::chars_to_string(&stripped))
}

} // verus!
