//! From an identifier and a client's file name to the place on disk.
//!
//! Of the client's file name only the extension is ever used: the text
//! behind the last dot of the name's last component. So no separator and no
//! `..` of the client's can reach the path.

use crate::text::{chars_of, string_of};
use vstd::prelude::*;

verus! {

/// The directory, relative to the working directory, that holds every stored file.
pub const UPLOADS_FOLDER: &'static str = "uploads";

/// The extension given to a file whose name has none.
pub const FALLBACK_EXTENSION: &'static str = "bin";

/// `s` without what a path ignores at its end: separators, and components
/// that are a single dot.
pub open spec fn trim_trailing(s: Seq<char>) -> Seq<char>
    decreases s.len(),
{
    if s.len() == 0 {
        s
    } else if s.last() == '/' {
        trim_trailing(s.drop_last())
    } else if s.len() >= 2 && s.last() == '.' && s[s.len() - 2] == '/' {
        trim_trailing(s.take(s.len() - 2))
    } else {
        s
    }
}

/// What follows the last separator of `s`; all of `s` where it has none.
pub open spec fn last_segment(s: Seq<char>) -> Seq<char> {
    match s.index_of_last('/') {
        Some(i) => s.skip(i + 1),
        None => s,
    }
}

/// The last component of the path `s`, where that component names a file:
/// there is none in an empty path, in a path of separators and dots only, or
/// in one that ends in `..`.
pub open spec fn file_name(s: Seq<char>) -> Option<Seq<char>> {
    let trimmed = trim_trailing(s);
    let name = last_segment(trimmed);
    if trimmed.len() == 0 || name == seq!['.'] || name == seq!['.', '.'] {
        None
    } else {
        Some(name)
    }
}

/// The extension of the file named by the path `s`: what follows the last dot
/// of its file name, wherever in the name that dot stands. A name without a
/// dot has none. A name that ends in a dot has the empty extension.
pub open spec fn extension_of(s: Seq<char>) -> Option<Seq<char>> {
    match file_name(s) {
        Some(name) => match name.index_of_last('.') {
            Some(dot) => Some(name.skip(dot + 1)),
            None => None,
        },
        None => None,
    }
}

/// The extension a file is stored under: its own, or the fallback.
pub open spec fn stored_extension(filename: Seq<char>) -> Seq<char> {
    match extension_of(filename) {
        Some(ext) => ext,
        None => FALLBACK_EXTENSION@,
    }
}

/// `stem` with `ext` behind a dot; `stem` alone where `ext` is empty.
pub open spec fn with_extension(stem: Seq<char>, ext: Seq<char>) -> Seq<char> {
    if ext.len() == 0 {
        stem
    } else {
        stem + seq!['.'] + ext
    }
}

/// A file name without its extension: what stands before its last dot, or
/// all of it where it has no dot.
pub open spec fn stem_of(name: Seq<char>) -> Seq<char> {
    match name.index_of_last('.') {
        Some(dot) => name.take(dot),
        None => name,
    }
}

/// The name, inside the upload directory, of the file that an upload of
/// `filename` under `id` is stored as.
pub open spec fn stored_name(id: Seq<char>, filename: Seq<char>) -> Seq<char> {
    with_extension(id, stored_extension(filename))
}

/// The path of the file `name` of the upload directory.
pub open spec fn in_uploads(name: Seq<char>) -> Seq<char> {
    UPLOADS_FOLDER@ + seq!['/'] + name
}

/// The path that an upload of `filename` under `id` is stored at.
pub open spec fn local_path(id: Seq<char>, filename: Seq<char>) -> Seq<char> {
    in_uploads(stored_name(id, filename))
}

/// An occurrence with none behind it is the last one.
pub proof fn lemma_last_index(s: Seq<char>, needle: char, i: int)
    requires
        0 <= i < s.len(),
        s[i] == needle,
        forall|j: int| i < j < s.len() ==> s[j] != needle,
    ensures
        s.index_of_last(needle) == Some(i),
{
    s.index_of_last_ensures(needle);
}

/// What does not occur has no last occurrence.
pub proof fn lemma_no_index(s: Seq<char>, needle: char)
    requires
        forall|j: int| 0 <= j < s.len() ==> s[j] != needle,
    ensures
        s.index_of_last(needle) is None,
{
    s.index_of_last_ensures(needle);
}

/// Where what `trim_trailing` keeps of `chars` ends.
fn trimmed_end(chars: &Vec<char>) -> (end: usize)
    ensures
        end <= chars@.len(),
        trim_trailing(chars@) == chars@.take(end as int),
{
    let mut end: usize = chars.len();
    assert(chars@.take(end as int) =~= chars@);
    loop
        invariant
            end <= chars@.len(),
            trim_trailing(chars@) == trim_trailing(chars@.take(end as int)),
        ensures
            trim_trailing(chars@) == chars@.take(end as int),
        decreases end,
    {
        let ghost cur = chars@.take(end as int);
        if end == 0 {
            break;
        }
        if chars[end - 1] == '/' {
            assert(cur.drop_last() =~= chars@.take(end - 1));
            end -= 1;
        } else if end >= 2 && chars[end - 1] == '.' && chars[end - 2] == '/' {
            assert(cur.take(cur.len() - 2) =~= chars@.take(end - 2));
            end -= 2;
        } else {
            break;
        }
    }
    end
}

/// Where the last segment of `chars[..end]` begins.
fn segment_start(chars: &Vec<char>, end: usize) -> (start: usize)
    requires
        end <= chars@.len(),
    ensures
        start <= end,
        start == 0 || chars@[start - 1] == '/',
        last_segment(chars@.take(end as int)) == chars@.subrange(start as int, end as int),
{
    let mut start: usize = end;
    while start > 0 && chars[start - 1] != '/'
        invariant
            start <= end <= chars@.len(),
            forall|k: int| start <= k < end ==> chars@[k] != '/',
        decreases start,
    {
        start -= 1;
    }
    proof {
        let prefix = chars@.take(end as int);
        if start == 0 {
            lemma_no_index(prefix, '/');
            assert(prefix =~= chars@.subrange(0, end as int));
        } else {
            lemma_last_index(prefix, '/', start - 1);
            assert(prefix.skip(start as int) =~= chars@.subrange(start as int, end as int));
        }
    }
    start
}

/// The bounds, in `chars`, of the file name of the path that `chars` spells.
fn file_name_bounds(chars: &Vec<char>) -> (bounds: Option<(usize, usize)>)
    ensures
        match bounds {
            Some((start, end)) => {
                &&& start < end <= chars@.len()
                &&& file_name(chars@) == Some(chars@.subrange(start as int, end as int))
            },
            None => file_name(chars@) is None,
        },
{
    let end = trimmed_end(chars);
    let start = segment_start(chars, end);
    let ghost name = chars@.subrange(start as int, end as int);
    if end == 0 {
        return None;
    }
    if end - start == 1 && chars[start] == '.' {
        assert(name =~= seq!['.']);
        return None;
    }
    if end - start == 2 && chars[start] == '.' && chars[start + 1] == '.' {
        assert(name =~= seq!['.', '.']);
        return None;
    }
    proof {
        let trimmed = chars@.take(end as int);
        lemma_trimmed_end(chars@);
        assert(trimmed.last() != '/');
        if name == seq!['.'] {
            assert(name.len() == 1 && name[0] == '.');
        }
        if name == seq!['.', '.'] {
            assert(name.len() == 2 && name[0] == '.' && name[1] == '.');
        }
    }
    Some((start, end))
}

/// What `trim_trailing` returns is a prefix of its argument that does not end
/// in a separator, and trimming it again changes nothing.
pub proof fn lemma_trimmed_end(s: Seq<char>)
    ensures
        trim_trailing(s).len() <= s.len(),
        trim_trailing(s) == s.take(trim_trailing(s).len() as int),
        trim_trailing(s).len() > 0 ==> trim_trailing(s).last() != '/',
        trim_trailing(trim_trailing(s)) == trim_trailing(s),
    decreases s.len(),
{
    if s.len() == 0 {
        assert(s.take(0) =~= s);
    } else if s.last() == '/' {
        let rest = s.drop_last();
        lemma_trimmed_end(rest);
        assert(rest.take(trim_trailing(rest).len() as int) =~= s.take(
            trim_trailing(rest).len() as int,
        ));
    } else if s.len() >= 2 && s.last() == '.' && s[s.len() - 2] == '/' {
        let rest = s.take(s.len() - 2);
        lemma_trimmed_end(rest);
        assert(rest.take(trim_trailing(rest).len() as int) =~= s.take(
            trim_trailing(rest).len() as int,
        ));
    } else {
        assert(s.take(s.len() as int) =~= s);
    }
}

/// The last segment of `s` is the end of `s`, holds no separator, and either
/// is all of `s` or stands right behind a separator.
pub proof fn lemma_last_segment(s: Seq<char>)
    ensures
        last_segment(s).len() <= s.len(),
        last_segment(s) == s.skip(s.len() - last_segment(s).len()),
        !last_segment(s).contains('/'),
        last_segment(s).len() == s.len() || s[s.len() - last_segment(s).len() - 1] == '/',
{
    s.index_of_last_ensures('/');
    match s.index_of_last('/') {
        Some(i) => {
            assert(last_segment(s) =~= s.skip(i + 1));
        },
        None => {
            assert(s.skip(0) =~= s);
        },
    }
}

/// A file name is a piece of the path it is taken from, is not empty, holds
/// no separator, and is neither `.` nor `..`.
pub proof fn lemma_file_name(s: Seq<char>)
    ensures
        match file_name(s) {
            Some(name) => {
                &&& 0 < name.len() <= trim_trailing(s).len() <= s.len()
                &&& name == s.subrange(
                    trim_trailing(s).len() - name.len(),
                    trim_trailing(s).len() as int,
                )
                &&& !name.contains('/')
                &&& name != seq!['.']
                &&& name != seq!['.', '.']
            },
            None => true,
        },
{
    let trimmed = trim_trailing(s);
    lemma_trimmed_end(s);
    lemma_last_segment(trimmed);
    if file_name(s) is Some {
        let name = last_segment(trimmed);
        assert(trimmed.last() != '/');
        assert(name =~= s.subrange(trimmed.len() - name.len(), trimmed.len() as int));
    }
}

/// An extension is a piece of the file name it is taken from: it holds
/// neither a separator nor a dot, and the name holds a dot.
pub proof fn lemma_extension(s: Seq<char>)
    ensures
        match extension_of(s) {
            Some(ext) => {
                &&& file_name(s) is Some
                &&& ext.len() < file_name(s)->Some_0.len()
                &&& ext == file_name(s)->Some_0.skip(file_name(s)->Some_0.len() - ext.len())
                &&& !ext.contains('/')
                &&& !ext.contains('.')
                &&& s.contains('.')
            },
            None => true,
        },
{
    lemma_file_name(s);
    if let Some(name) = file_name(s) {
        name.index_of_last_ensures('.');
        if let Some(ext) = extension_of(s) {
            let dot = name.index_of_last('.')->Some_0;
            let at = trim_trailing(s).len() - name.len() + dot;
            assert(s[at] == '.');
        }
    }
}

/// Putting a dot and an extension behind any path gives a path with that
/// extension.
pub proof fn lemma_extension_of_appended(stem: Seq<char>, ext: Seq<char>)
    requires
        ext.len() > 0,
        !ext.contains('/'),
        !ext.contains('.'),
    ensures
        extension_of(stem + seq!['.'] + ext) == Some(ext),
{
    let whole = stem + seq!['.'] + ext;
    let segment = last_segment(stem);
    lemma_last_segment(stem);
    let start = stem.len() - segment.len();
    assert(whole.last() == ext.last());
    assert(ext.contains(ext.last()));
    assert(trim_trailing(whole) == whole);
    assert forall|j: int| start <= j < whole.len() implies whole[j] != '/' by {
        if j < stem.len() {
            assert(segment[j - start] == stem[j]);
            assert(segment.contains(segment[j - start]));
        } else if j > stem.len() {
            assert(ext.contains(ext[j - stem.len() - 1]));
        }
    }
    if start == 0 {
        lemma_no_index(whole, '/');
        assert(last_segment(whole) =~= segment + seq!['.'] + ext);
    } else {
        assert(whole[start - 1] == stem[start - 1]);
        lemma_last_index(whole, '/', start - 1);
        assert(whole.skip(start) =~= segment + seq!['.'] + ext);
    }
    let name = segment + seq!['.'] + ext;
    assert(name.len() >= 2);
    assert(name[name.len() - 1] == ext.last());
    assert(name != seq!['.']);
    assert(name != seq!['.', '.']) by {
        if name == seq!['.', '.'] {
            assert(name[name.len() - 1] == '.');
        }
    }
    assert(name[segment.len() as int] == '.');
    assert forall|j: int| segment.len() < j < name.len() implies name[j] != '.' by {
        assert(ext.contains(ext[j - segment.len() - 1]));
    }
    lemma_last_index(name, '.', segment.len() as int);
    assert(name.skip(segment.len() as int + 1) =~= ext);
}

/// A name without a dot is its own stem.
pub proof fn lemma_stem_without_dot(name: Seq<char>)
    requires
        !name.contains('.'),
    ensures
        stem_of(name) == name,
{
    name.index_of_last_ensures('.');
}

/// The extension of the file that the path `filename` names, if it has one.
pub fn file_extension(filename: &str) -> (ext: Option<String>)
    ensures
        match ext {
            Some(e) => extension_of(filename@) == Some(e@),
            None => extension_of(filename@) is None,
        },
{
    let chars = chars_of(filename);
    match file_name_bounds(&chars) {
        None => None,
        Some((start, end)) => {
            let ghost name = chars@.subrange(start as int, end as int);
            let mut dot: usize = end;
            while dot > start && chars[dot - 1] != '.'
                invariant
                    start <= dot <= end <= chars@.len(),
                    forall|k: int| dot <= k < end ==> chars@[k] != '.',
                decreases dot,
            {
                dot -= 1;
            }
            if dot == start {
                proof {
                    lemma_no_index(name, '.');
                }
                None
            } else {
                proof {
                    lemma_last_index(name, '.', dot - 1 - start);
                    assert(name.skip(dot - start) =~= chars@.subrange(dot as int, end as int));
                }
                Some(string_of(&chars, dot, end))
            }
        },
    }
}

/// The stem of the file name `name`.
pub fn file_stem(name: &str) -> (stem: String)
    ensures
        stem@ == stem_of(name@),
{
    let chars = chars_of(name);
    let mut dot: usize = chars.len();
    while dot > 0 && chars[dot - 1] != '.'
        invariant
            dot <= chars@.len(),
            forall|k: int| dot <= k < chars@.len() ==> chars@[k] != '.',
        decreases dot,
    {
        dot -= 1;
    }
    if dot == 0 {
        proof {
            lemma_no_index(chars@, '.');
            assert(chars@.subrange(0, chars@.len() as int) =~= chars@);
        }
        string_of(&chars, 0, chars.len())
    } else {
        proof {
            lemma_last_index(chars@, '.', dot - 1);
            assert(chars@.take(dot - 1) =~= chars@.subrange(0, dot - 1));
        }
        string_of(&chars, 0, dot - 1)
    }
}

/// The path that an upload of `filename` under `id` is stored at:
/// the upload directory, a separator, `id`, and behind a dot the extension of
/// `filename` or, where it has none, the fallback. A file name that ends in a
/// dot has the empty extension, and the path then ends with `id`. Of
/// `filename` nothing but its extension enters the path.
pub fn build_local_path(id: &str, filename: &str) -> (path: String)
    ensures
        path@ == local_path(id@, filename@),
{
    let mut path = String::from_str(UPLOADS_FOLDER);
    path.push('/');
    path.append(id);
    let ext = match file_extension(filename) {
        Some(ext) => ext,
        None => String::from_str(FALLBACK_EXTENSION),
    };
    if !ext.as_str().is_empty() {
        path.push('.');
        path.append(ext.as_str());
    }
    assert(path@ =~= local_path(id@, filename@));
    path
}

} // verus!
