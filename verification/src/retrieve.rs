//! From the segments of a requested address to the file to serve.
//!
//! The first segment names the stored file; a second one, if given, lends
//! only its extension, or the fallback where it has none, exactly as the
//! file name of an upload does. What the client wrote never leaves the
//! upload directory: a first segment that is not a plain name resolves to
//! nothing.

use crate::error::ServiceError;
use crate::path::{
    file_extension, file_stem, in_uploads, stem_of, stored_extension, with_extension,
    FALLBACK_EXTENSION, UPLOADS_FOLDER,
};
use crate::text::{chars_of, optional_text};
use vstd::prelude::*;

verus! {

/// A name that stays where it is put: not empty, without a separator and
/// without a NUL, and neither `.` nor `..`.
pub open spec fn is_plain_name(s: Seq<char>) -> bool {
    &&& s.len() > 0
    &&& !s.contains('/')
    &&& !s.contains('\0')
    &&& s != seq!['.']
    &&& s != seq!['.', '.']
}

/// The name, inside the upload directory, that a request asks for. One
/// segment alone is the name. With a second segment the name is rebuilt as
/// an upload builds it: the first segment without an extension of its own,
/// and behind it the extension of the second or, where the second has none,
/// the fallback.
pub open spec fn requested_name(id: Seq<char>, filename: Option<Seq<char>>) -> Seq<char> {
    match filename {
        Some(f) => with_extension(stem_of(id), stored_extension(f)),
        None => id,
    }
}

/// The path that a request asks for; `None` where the first segment, or the
/// name it asks for, is not a plain name.
pub open spec fn requested_path(id: Seq<char>, filename: Option<Seq<char>>) -> Option<Seq<char>> {
    if is_plain_name(id) && is_plain_name(requested_name(id, filename)) {
        Some(in_uploads(requested_name(id, filename)))
    } else {
        None
    }
}

/// What opening a stored file came to.
#[derive(Clone, Copy, Debug, PartialEq, Eq, Structural)]
pub enum Lookup {
    /// The file is there and can be streamed.
    Found,
    /// There is no such file.
    Absent,
    /// The file could not be opened for another reason.
    Failed,
}

/// Whether `chars` spell a plain name.
fn chars_are_plain_name(chars: &Vec<char>) -> (plain: bool)
    ensures
        plain == is_plain_name(chars@),
{
    let n = chars.len();
    if n == 0 {
        return false;
    }
    if n == 1 && chars[0] == '.' {
        assert(chars@ =~= seq!['.']);
        return false;
    }
    if n == 2 && chars[0] == '.' && chars[1] == '.' {
        assert(chars@ =~= seq!['.', '.']);
        return false;
    }
    let mut i: usize = 0;
    while i < n
        invariant
            n == chars@.len(),
            i <= n,
            forall|k: int| 0 <= k < i ==> chars@[k] != '/' && chars@[k] != '\0',
        decreases n - i,
    {
        if chars[i] == '/' || chars[i] == '\0' {
            return false;
        }
        i += 1;
    }
    proof {
        if chars@ == seq!['.'] {
            assert(chars@.len() == 1 && chars@[0] == '.');
        }
        if chars@ == seq!['.', '.'] {
            assert(chars@.len() == 2 && chars@[0] == '.' && chars@[1] == '.');
        }
    }
    true
}

/// The path of the stored file that the request for `id`, or for `id` and
/// `filename`, asks for. `None` where the request names nothing that could
/// be stored: the answer to such a request is `NotFound`.
pub fn resolve_request(id: &str, filename: Option<&str>) -> (path: Option<String>)
    ensures
        match path {
            Some(p) => requested_path(id@, optional_text(filename)) == Some(p@),
            None => requested_path(id@, optional_text(filename)) is None,
        },
{
    let id_chars = chars_of(id);
    if !chars_are_plain_name(&id_chars) {
        return None;
    }
    let name = match filename {
        Some(f) => {
            let ext = match file_extension(f) {
                Some(ext) => ext,
                None => String::from_str(FALLBACK_EXTENSION),
            };
            let mut name = file_stem(id);
            if !ext.as_str().is_empty() {
                name.push('.');
                name.append(ext.as_str());
            }
            name
        },
        None => String::from_str(id),
    };
    assert(name@ =~= requested_name(id@, optional_text(filename)));
    let name_chars = chars_of(name.as_str());
    if !chars_are_plain_name(&name_chars) {
        return None;
    }
    let mut path = String::from_str(UPLOADS_FOLDER);
    path.push('/');
    path.append(name.as_str());
    assert(path@ =~= in_uploads(name@));
    Some(path)
}

/// The failure, if any, that the outcome of opening a stored file stands
/// for. A file that is not there is `NotFound`, never a server error.
pub fn lookup_result(outcome: Lookup) -> (result: Result<(), ServiceError>)
    ensures
        outcome == Lookup::Found ==> result is Ok,
        outcome == Lookup::Absent ==> result == Err::<(), ServiceError>(ServiceError::NotFound),
        outcome == Lookup::Failed ==> result == Err::<(), ServiceError>(ServiceError::IoError),
{
    match outcome {
        Lookup::Found => Ok(()),
        Lookup::Absent => Err(ServiceError::NotFound),
        Lookup::Failed => Err(ServiceError::IoError),
    }
}

} // verus!
