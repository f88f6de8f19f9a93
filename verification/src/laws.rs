//! What holds of the library as a whole: statements that tie uploading,
//! addressing, fetching and expiry together, each proved from the
//! definitions in the other modules.

use crate::encoding::{
    encoded, is_unreserved_char, lemma_encoding_loses_nothing, lemma_percent_encode_chars,
    lemma_unreserved_text_encodes_to_itself,
};
use crate::ident::{is_alphanumeric, is_file_id};
use crate::path::{
    extension_of, in_uploads, lemma_extension, lemma_extension_of_appended, lemma_stem_without_dot,
    local_path, stem_of, stored_extension, stored_name, with_extension, FALLBACK_EXTENSION,
    UPLOADS_FOLDER,
};
use crate::purge::{actions, age, is_expired, next, Action, Phase, Signal};
use crate::retrieve::{is_plain_name, requested_name, requested_path};
use crate::url::{lemma_address_shows_url_filename, url_filename, url_path, url_suffix};
use vstd::prelude::*;
use vstd::utf8::encode_utf8;

verus! {

/// A well-formed identifier is a plain name that holds no dot, and so is
/// its own stem.
pub proof fn lemma_file_id_is_plain(id: Seq<char>)
    requires
        is_file_id(id),
    ensures
        is_plain_name(id),
        !id.contains('.'),
        stem_of(id) == id,
{
    assert forall|i: int| 0 <= i < id.len() implies id[i] != '/' && id[i] != '\0' && id[i]
        != '.' by {
        assert(is_alphanumeric(id[i]));
    }
    lemma_stem_without_dot(id);
}

/// The path of an upload depends on the client's file name through its
/// extension alone: two file names that are stored under the same extension
/// give the same path under the same identifier.
pub proof fn lemma_path_depends_on_extension_only(
    id: Seq<char>,
    first: Seq<char>,
    second: Seq<char>,
)
    requires
        stored_extension(first) == stored_extension(second),
    ensures
        local_path(id, first) == local_path(id, second),
{
}

/// No file name of a client's takes an upload out of the upload directory:
/// the file is stored directly in that directory, under a plain name that
/// begins with the identifier. (An extension that holds a NUL cannot be
/// stored at all.)
pub proof fn lemma_upload_stays_in_uploads(id: Seq<char>, filename: Seq<char>)
    requires
        is_file_id(id),
        !stored_extension(filename).contains('\0'),
    ensures
        local_path(id, filename) == in_uploads(stored_name(id, filename)),
        is_plain_name(stored_name(id, filename)),
        stored_name(id, filename).take(id.len() as int) == id,
{
    lemma_file_id_is_plain(id);
    lemma_extension(filename);
    reveal_strlit("bin");
    let ext = stored_extension(filename);
    assert(!ext.contains('/')) by {
        if extension_of(filename) is None {
            assert forall|i: int| 0 <= i < ext.len() implies ext[i] != '/' by {}
        }
    }
    lemma_name_with_extension(id, ext);
}

/// A plain stem with an extension that holds no separator and no NUL is a
/// plain name again, and begins with the stem.
pub proof fn lemma_name_with_extension(stem: Seq<char>, ext: Seq<char>)
    requires
        is_plain_name(stem),
        !ext.contains('/'),
        !ext.contains('\0'),
    ensures
        is_plain_name(with_extension(stem, ext)),
        with_extension(stem, ext).take(stem.len() as int) == stem,
{
    let name = with_extension(stem, ext);
    if ext.len() == 0 {
        assert(name.take(stem.len() as int) =~= stem);
    } else {
        assert(name.take(stem.len() as int) =~= stem);
        assert forall|i: int| 0 <= i < name.len() implies name[i] != '/' && name[i] != '\0' by {
            if i < stem.len() {
                assert(name[i] == stem[i]);
            } else if i == stem.len() {
                assert(name[i] == '.');
            } else {
                assert(name[i] == ext[i - stem.len() - 1]);
            }
        }
        if name == seq!['.'] {
            assert(name.len() == 1);
        }
        if name == seq!['.', '.'] {
            assert(name.len() == 2);
            assert(stem.len() == 1 && ext.len() == 0);
        }
    }
}

/// Whatever a request names, the path it resolves to lies directly in the
/// upload directory, under a plain name.
pub proof fn lemma_request_stays_in_uploads(id: Seq<char>, filename: Option<Seq<char>>)
    ensures
        match requested_path(id, filename) {
            Some(path) => {
                &&& path == in_uploads(requested_name(id, filename))
                &&& is_plain_name(requested_name(id, filename))
            },
            None => true,
        },
{
}

/// Uploads under different identifiers are stored at different paths,
/// whatever their file names: neither can overwrite the other.
pub proof fn lemma_distinct_ids_distinct_paths(
    first_id: Seq<char>,
    first_name: Seq<char>,
    second_id: Seq<char>,
    second_name: Seq<char>,
)
    requires
        is_file_id(first_id),
        is_file_id(second_id),
        first_id != second_id,
    ensures
        local_path(first_id, first_name) != local_path(second_id, second_name),
{
    let a = stored_name(first_id, first_name);
    let b = stored_name(second_id, second_name);
    let prefix = UPLOADS_FOLDER@ + seq!['/'];
    assert(a.take(4) =~= first_id);
    assert(b.take(4) =~= second_id);
    if local_path(first_id, first_name) == local_path(second_id, second_name) {
        assert((prefix + a).skip(prefix.len() as int) =~= a);
        assert((prefix + b).skip(prefix.len() as int) =~= b);
        assert(a == b);
        assert(first_id == second_id);
    }
}

/// The file name in a request is for show: a request under the identifier of
/// an upload, with any file name that is stored under the same extension as
/// the uploaded one, resolves to the path the upload was stored at. (An
/// extension that holds a NUL cannot be stored at all.)
pub proof fn lemma_same_extension_same_file(
    id: Seq<char>,
    uploaded: Seq<char>,
    asked: Seq<char>,
)
    requires
        is_file_id(id),
        stored_extension(asked) == stored_extension(uploaded),
        !stored_extension(uploaded).contains('\0'),
    ensures
        requested_path(id, Some(asked)) == Some(local_path(id, uploaded)),
{
    lemma_upload_stays_in_uploads(id, uploaded);
    lemma_file_id_is_plain(id);
}

/// A request with the file name of the upload itself resolves to the path
/// the upload was stored at: fetching rebuilds the path exactly as storing
/// built it.
pub proof fn lemma_request_rebuilds_the_path(id: Seq<char>, filename: Seq<char>)
    requires
        is_file_id(id),
        !stored_extension(filename).contains('\0'),
    ensures
        requested_name(id, Some(filename)) == stored_name(id, filename),
        requested_path(id, Some(filename)) == Some(local_path(id, filename)),
{
    lemma_file_id_is_plain(id);
    lemma_same_extension_same_file(id, filename, filename);
}

/// Two requests under one first segment whose file names are stored under
/// the same extension resolve alike.
pub proof fn lemma_filename_is_cosmetic(id: Seq<char>, first: Seq<char>, second: Seq<char>)
    requires
        stored_extension(first) == stored_extension(second),
    ensures
        requested_path(id, Some(first)) == requested_path(id, Some(second)),
{
}

/// A request of one segment, an identifier with an extension behind a dot,
/// resolves like the request of two segments whose second has that
/// extension.
pub proof fn lemma_one_segment_or_two(id: Seq<char>, filename: Seq<char>)
    requires
        is_file_id(id),
        extension_of(filename) is Some,
    ensures
        requested_path(stored_name(id, filename), None) == requested_path(id, Some(filename)),
{
    lemma_file_id_is_plain(id);
    lemma_extension(filename);
    let ext = stored_extension(filename);
    if !ext.contains('\0') {
        lemma_name_with_extension(id, ext);
    } else {
        let name = with_extension(id, ext);
        let at = choose|i: int| 0 <= i < ext.len() && ext[i] == '\0';
        assert(name[id.len() + 1 + at] == '\0');
        assert(!is_plain_name(name));
    }
}

/// A file ages with the clock: one that is within the retention window at
/// some time was within it at every earlier time, and so has survived every
/// sweep up to then; one that is past the window stays past it.
pub proof fn lemma_expiry_is_monotonic(
    modified: u128,
    retention: u128,
    earlier: u128,
    later: u128,
)
    requires
        earlier <= later,
    ensures
        age(earlier, modified) <= age(later, modified),
        !is_expired(later, modified, retention) ==> !is_expired(earlier, modified, retention),
        is_expired(earlier, modified, retention) ==> is_expired(later, modified, retention),
{
}

/// With a retention window of zero, every file that is older than the
/// instant of the sweep is deleted by it.
pub proof fn lemma_zero_retention(modified: u128, now: u128)
    ensures
        is_expired(now, modified, 0) <==> modified < now,
{
}

/// Once stopped, the sweeper never sweeps again, whatever signals follow.
pub proof fn lemma_no_sweep_after_stop(signals: Seq<Signal>)
    ensures
        actions(Phase::Stopped, signals).len() == signals.len(),
        forall|i: int|
            0 <= i < signals.len() ==> #[trigger] actions(Phase::Stopped, signals)[i]
                == Action::Exit,
    decreases signals.len(),
{
    if signals.len() > 0 {
        lemma_no_sweep_after_stop(signals.drop_first());
        let tail = actions(Phase::Stopped, signals.drop_first());
        assert forall|i: int| 0 <= i < signals.len() implies #[trigger] actions(
            Phase::Stopped,
            signals,
        )[i] == Action::Exit by {
            if i > 0 {
                assert(actions(Phase::Stopped, signals)[i] == tail[i - 1]);
            }
        }
    }
}

/// The sweeper sweeps on every tick up to the first stop and on none after
/// it: its answer to the signal at `i` is a sweep exactly when no stop has
/// come up to and including `i`.
pub proof fn lemma_sweeps_until_stopped(signals: Seq<Signal>, i: int)
    requires
        0 <= i < signals.len(),
    ensures
        actions(Phase::Running, signals).len() == signals.len(),
        actions(Phase::Running, signals)[i] == Action::Sweep <==> (forall|j: int|
            0 <= j <= i ==> signals[j] == Signal::Tick),
    decreases signals.len(),
{
    let tail = signals.drop_first();
    lemma_actions_len(Phase::Running, signals);
    if signals[0] == Signal::Stop {
        lemma_no_sweep_after_stop(tail);
        if i > 0 {
            assert(actions(Phase::Running, signals)[i] == actions(Phase::Stopped, tail)[i - 1]);
        }
    } else {
        if i > 0 {
            lemma_sweeps_until_stopped(tail, i - 1);
            assert(actions(Phase::Running, signals)[i] == actions(Phase::Running, tail)[i - 1]);
            if forall|j: int| 0 <= j <= i - 1 ==> tail[j] == Signal::Tick {
                assert forall|j: int| 0 <= j <= i implies signals[j] == Signal::Tick by {
                    if j > 0 {
                        assert(tail[j - 1] == signals[j]);
                    }
                }
            }
            if forall|j: int| 0 <= j <= i ==> signals[j] == Signal::Tick {
                assert forall|j: int| 0 <= j <= i - 1 implies tail[j] == Signal::Tick by {
                    assert(tail[j] == signals[j + 1]);
                }
            }
        }
    }
}

/// The sweeper answers every signal with one action.
pub proof fn lemma_actions_len(phase: Phase, signals: Seq<Signal>)
    ensures
        actions(phase, signals).len() == signals.len(),
    decreases signals.len(),
{
    if signals.len() > 0 {
        lemma_actions_len(next(phase, signals[0]).0, signals.drop_first());
    }
}

/// A well-formed identifier stands in an address as it is, so the path of
/// the address of an upload is a separator, the identifier, a separator, and
/// the encoded file name with what `url_suffix` puts behind it.
pub proof fn lemma_file_id_in_address(id: Seq<char>, filename: Seq<char>)
    requires
        is_file_id(id),
    ensures
        encoded(id) == id,
        url_path(id, filename) == seq!['/'] + id + seq!['/'] + encoded(filename) + url_suffix(
            filename,
        ),
{
    assert forall|i: int| 0 <= i < id.len() implies is_unreserved_char(#[trigger] id[i]) by {
        assert(is_alphanumeric(id[i]));
    }
    lemma_unreserved_text_encodes_to_itself(id);
}

/// A file name without an extension gets the fallback extension in both
/// places: the file is stored under the identifier with the fallback
/// extension, and the address shows the file name with the fallback
/// extension behind it, so that the name the address shows has that
/// extension.
pub proof fn lemma_fallback_extension_is_consistent(id: Seq<char>, filename: Seq<char>)
    requires
        extension_of(filename) is None,
    ensures
        stored_extension(filename) == FALLBACK_EXTENSION@,
        stored_name(id, filename) == id + seq!['.'] + FALLBACK_EXTENSION@,
        url_filename(filename) == filename + seq!['.'] + FALLBACK_EXTENSION@,
        extension_of(url_filename(filename)) == Some(FALLBACK_EXTENSION@),
{
    reveal_strlit("bin");
    let ext = FALLBACK_EXTENSION@;
    assert(url_filename(filename) =~= filename + seq!['.'] + ext);
    assert(!ext.contains('/') && !ext.contains('.'));
    lemma_extension_of_appended(filename, ext);
}

/// The name that an address shows is stored under the same extension as the
/// file name of the upload, whatever that file name is.
pub proof fn lemma_address_keeps_the_extension(filename: Seq<char>)
    ensures
        extension_of(url_filename(filename)) is Some,
        stored_extension(url_filename(filename)) == stored_extension(filename),
{
    if extension_of(filename) is None {
        lemma_fallback_extension_is_consistent(Seq::empty(), filename);
    } else {
        assert(url_filename(filename) =~= filename);
    }
}

/// The address handed out for an upload leads back to it: a request for the
/// identifier and the file name that the address shows resolves to the path
/// the upload was stored at. This holds of every file name. (An extension
/// that holds a NUL cannot be stored at all.)
pub proof fn lemma_address_leads_to_stored_file(id: Seq<char>, filename: Seq<char>)
    requires
        is_file_id(id),
        !stored_extension(filename).contains('\0'),
    ensures
        requested_path(id, Some(url_filename(filename))) == Some(local_path(id, filename)),
{
    lemma_address_keeps_the_extension(filename);
    lemma_same_extension_same_file(id, filename, url_filename(filename));
}

/// Two segments without a separator, each behind a separator, can be told
/// apart again.
proof fn lemma_two_segments(a: Seq<char>, b: Seq<char>, c: Seq<char>, d: Seq<char>)
    requires
        !a.contains('/'),
        !c.contains('/'),
        seq!['/'] + a + seq!['/'] + b == seq!['/'] + c + seq!['/'] + d,
    ensures
        a == c,
        b == d,
{
    let left = seq!['/'] + a + seq!['/'] + b;
    let right = seq!['/'] + c + seq!['/'] + d;
    let m = a.len() as int;
    let n = c.len() as int;
    assert(left[1 + m] == '/');
    assert(right[1 + n] == '/');
    if m < n {
        assert(right[1 + m] == c[m]);
        assert(c.contains(c[m]));
    }
    if n < m {
        assert(left[1 + n] == a[n]);
        assert(a.contains(a[n]));
    }
    assert(a =~= c) by {
        assert forall|i: int| 0 <= i < m implies a[i] == c[i] by {
            assert(left[i + 1] == a[i]);
            assert(right[i + 1] == c[i]);
        }
    }
    assert(b =~= d) by {
        assert(left.len() == right.len());
        assert forall|i: int| 0 <= i < b.len() implies b[i] == d[i] by {
            assert(left[i + 2 + m] == b[i]);
            assert(right[i + 2 + n] == d[i]);
        }
    }
}

/// An address names one upload: two addresses with the same path carry the
/// same identifier and show the same file name.
pub proof fn lemma_address_names_one_upload(
    first_id: Seq<char>,
    first_name: Seq<char>,
    second_id: Seq<char>,
    second_name: Seq<char>,
)
    requires
        url_path(first_id, first_name) == url_path(second_id, second_name),
    ensures
        first_id == second_id,
        url_filename(first_name) == url_filename(second_name),
{
    lemma_address_shows_url_filename(first_id, first_name);
    lemma_address_shows_url_filename(second_id, second_name);
    lemma_percent_encode_chars(encode_utf8(first_id));
    lemma_percent_encode_chars(encode_utf8(second_id));
    lemma_two_segments(
        encoded(first_id),
        encoded(url_filename(first_name)),
        encoded(second_id),
        encoded(url_filename(second_name)),
    );
    lemma_encoding_loses_nothing(first_id, second_id);
    lemma_encoding_loses_nothing(url_filename(first_name), url_filename(second_name));
}

} // verus!
