//! Taking an upload in: which field of a form is the upload, what it is
//! called, where it goes, and how much of it may arrive.

use crate::error::ServiceError;
use crate::ident::{create_file_id, is_file_id};
use crate::path::{build_local_path, local_path};
use crate::text::{optional_text, same_text};
use crate::url::{build_file_url, header_bytes, host_of, uri_text, url_path, URL_SCHEME};
use vstd::prelude::*;

verus! {

/// The most bytes one upload may hold.
pub const FILE_SIZE_LIMIT: u64 = 2_000_000_000;

/// The form field that carries pasted text.
pub const TEXT_FIELD: &'static str = "text";

/// The form field that carries an attached file.
pub const FILE_FIELD: &'static str = "file";

/// The file name given to pasted text.
pub const PASTE_FILENAME: &'static str = "paste.txt";

/// The file name given to an upload that declares none.
pub const FALLBACK_FILENAME: &'static str = "file.bin";

/// The file name under which a form field is taken in, or `None` where the
/// field is passed over.
///
/// Pasted text is always taken, as `paste.txt`. Any other field that declares
/// an empty file name is an attachment left blank and is passed over; so is
/// the file field when it declares no file name at all. A field that declares
/// a file name is taken under it, and what is left is taken as `file.bin`.
pub open spec fn upload_name(name: Seq<char>, declared: Option<Seq<char>>) -> Option<Seq<char>> {
    if name == TEXT_FIELD@ {
        Some(PASTE_FILENAME@)
    } else {
        match declared {
            Some(filename) => if filename.len() == 0 {
                None
            } else {
                Some(filename)
            },
            None => if name == FILE_FIELD@ {
                None
            } else {
                Some(FALLBACK_FILENAME@)
            },
        }
    }
}

/// What a form field says of itself before its content arrives.
#[derive(Clone, Debug)]
pub struct FieldHead {
    /// The name of the field.
    pub name: String,
    /// The file name that the field declares, if it declares one.
    pub filename: Option<String>,
}

impl FieldHead {
    /// The declared file name as characters.
    pub open spec fn declared(&self) -> Option<Seq<char>> {
        match self.filename {
            Some(filename) => Some(filename@),
            None => None,
        }
    }

    /// The file name under which this field is taken in, if it is.
    pub open spec fn upload_name(&self) -> Option<Seq<char>> {
        upload_name(self.name@, self.declared())
    }
}

/// Whether no field of `fields` before index `end` is taken in.
pub open spec fn all_passed_over(fields: Seq<FieldHead>, end: int) -> bool {
    forall|j: int| 0 <= j < end ==> (#[trigger] fields[j]).upload_name() is None
}

/// The file name under which the field `name`, declaring the file name
/// `declared`, is taken in; `None` where the field is passed over.
pub fn upload_filename(name: &str, declared: Option<&str>) -> (taken: Option<String>)
    ensures
        match taken {
            Some(filename) => upload_name(name@, optional_text(declared)) == Some(
                filename@,
            ),
            None => upload_name(name@, optional_text(declared)) is None,
        },
{
    if same_text(name, TEXT_FIELD) {
        return Some(String::from_str(PASTE_FILENAME));
    }
    match declared {
        Some(filename) => {
            if filename.is_empty() {
                None
            } else {
                Some(String::from_str(filename))
            }
        },
        None => {
            if same_text(name, FILE_FIELD) {
                None
            } else {
                Some(String::from_str(FALLBACK_FILENAME))
            }
        },
    }
}

/// The upload in a form: the index of the first field that is taken in, and
/// the file name it is taken in under. A form without such a field is a
/// `BadRequest`.
pub fn select_upload(fields: &[FieldHead]) -> (chosen: Result<(usize, String), ServiceError>)
    ensures
        match chosen {
            Ok((index, filename)) => {
                &&& index < fields@.len()
                &&& fields@[index as int].upload_name() == Some(filename@)
                &&& all_passed_over(fields@, index as int)
            },
            Err(e) => {
                &&& e == ServiceError::BadRequest
                &&& all_passed_over(fields@, fields@.len() as int)
            },
        },
{
    let mut i: usize = 0;
    while i < fields.len()
        invariant
            i <= fields@.len(),
            all_passed_over(fields@, i as int),
        decreases fields@.len() - i,
    {
        let field = &fields[i];
        let taken = match &field.filename {
            Some(filename) => upload_filename(field.name.as_str(), Some(filename.as_str())),
            None => upload_filename(field.name.as_str(), None),
        };
        match taken {
            Some(filename) => {
                return Ok((i, filename));
            },
            None => {},
        }
        i += 1;
    }
    Err(ServiceError::BadRequest)
}

/// An upload that has been given its place: one fresh identifier, the file
/// name it came under, and the path its bytes are written to.
#[derive(Clone, Debug)]
pub struct Upload {
    /// The identifier made up for this upload.
    pub id: String,
    /// The file name the upload came under.
    pub filename: String,
    /// Where the bytes go.
    pub path: String,
}

impl Upload {
    /// The identifier is well-formed and the path is the one that the
    /// identifier and the file name determine.
    pub open spec fn wf(&self) -> bool {
        &&& is_file_id(self.id@)
        &&& self.path@ == local_path(self.id@, self.filename@)
    }

    /// Gives an upload of `filename` its place, under one new identifier.
    pub fn begin(filename: &str) -> (upload: Upload)
        ensures
            upload.wf(),
            upload.filename@ == filename@,
    {
        let id = create_file_id();
        let path = build_local_path(id.as_str(), filename);
        Upload { id, filename: String::from_str(filename), path }
    }

    /// The address under which this upload can be fetched, for a request
    /// whose `Host` header has the value `raw`.
    pub fn url(&self, raw: Option<&[u8]>) -> (url: Result<String, ServiceError>)
        ensures
            match host_of(header_bytes(raw)) {
                Err(e) => url == Err::<String, ServiceError>(e),
                Ok(host) => match uri_text(URL_SCHEME@, host, url_path(self.id@, self.filename@)) {
                    Some(text) => {
                        &&& url is Ok
                        &&& url->Ok_0@ == text
                        &&& text == URL_SCHEME@ + "://"@ + host + url_path(
                            self.id@,
                            self.filename@,
                        )
                    },
                    None => url == Err::<String, ServiceError>(ServiceError::MalformedHost),
                },
            },
    {
        build_file_url(raw, self.id.as_str(), self.filename.as_str())
    }
}

/// The count of the bytes of one upload as they arrive, held to a ceiling.
#[derive(Clone, Copy, Debug, PartialEq, Eq, Structural)]
pub struct Intake {
    /// How many bytes have been taken in.
    pub received: u64,
    /// How many bytes may be taken in at most.
    pub limit: u64,
}

impl Intake {
    /// No more has been taken in than is allowed.
    pub open spec fn wf(&self) -> bool {
        self.received <= self.limit
    }

    /// An intake that has seen nothing yet.
    pub fn new(limit: u64) -> (intake: Intake)
        ensures
            intake.wf(),
            intake.received == 0,
            intake.limit == limit,
    {
        Intake { received: 0, limit }
    }

    /// Counts a chunk of `chunk_len` bytes before it is written. Where the
    /// chunk would take the upload past the ceiling, nothing is counted and
    /// the upload fails with `SizeLimitExceeded`.
    pub fn accept(&mut self, chunk_len: usize) -> (accepted: Result<(), ServiceError>)
        ensures
            final(self).limit == old(self).limit,
            old(self).wf() ==> final(self).wf(),
            match accepted {
                Ok(_) => {
                    &&& old(self).received + chunk_len <= old(self).limit
                    &&& final(self).received == old(self).received + chunk_len
                },
                Err(e) => {
                    &&& e == ServiceError::SizeLimitExceeded
                    &&& old(self).received + chunk_len > old(self).limit
                    &&& final(self).received == old(self).received
                },
            },
    {
        if self.received <= self.limit && chunk_len as u64 <= self.limit - self.received {
            self.received = self.received + chunk_len as u64;
            Ok(())
        } else {
            Err(ServiceError::SizeLimitExceeded)
        }
    }
}

} // verus!
