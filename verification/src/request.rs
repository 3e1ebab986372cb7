//! Reading a conversion request: which form fields count, and whether the
//! request is admitted.

use vstd::prelude::*;
use vstd::utf8::is_ascii_chars;
use crate::error::{AppError, Failure, answers, unsupported_message, BAD_REQUEST};
use crate::kinds::{Kind, classify, classify_spec};
use crate::text::text_eq;

verus! {

/// What a multipart form field is used for, by its name.
#[derive(Clone, Copy, Debug, PartialEq, Eq, Structural)]
pub enum FieldRole {
    /// The source format (`from`).
    From,
    /// The target format (`to`).
    To,
    /// The uploaded file (`file`).
    File,
    /// Any other field, which is skipped.
    Ignored,
}

pub open spec fn field_role_spec(name: Seq<char>) -> FieldRole {
    if name == "from"@ {
        FieldRole::From
    } else if name == "to"@ {
        FieldRole::To
    } else if name == "file"@ {
        FieldRole::File
    } else {
        FieldRole::Ignored
    }
}

/// The role of the form field called `name` (a field without a name is
/// called by the empty string).
pub fn field_role(name: &str) -> (r: FieldRole)
    ensures
        r == field_role_spec(name@),
{
    if text_eq(name, "from") {
        FieldRole::From
    } else if text_eq(name, "to") {
        FieldRole::To
    } else if text_eq(name, "file") {
        FieldRole::File
    } else {
        FieldRole::Ignored
    }
}

/// The fields of a request gathered so far; a later field of the same name
/// replaces an earlier one.
#[derive(Debug)]
pub struct Upload {
    pub from: Option<String>,
    pub to: Option<String>,
    pub data: Option<Vec<u8>>,
}

/// The bytes of an optional buffer.
pub open spec fn bytes_of(data: Option<Vec<u8>>) -> Option<Seq<u8>> {
    match data {
        Some(v) => Some(v@),
        None => None,
    }
}

impl Upload {
    /// No field read yet.
    pub fn new() -> (r: Self)
        ensures
            r.from is None,
            r.to is None,
            r.data is None,
    {
        Upload { from: None, to: None, data: None }
    }

    /// Records the `from` field.
    pub fn set_from(&mut self, value: String)
        ensures
            final(self).from == Some(value),
            final(self).to == old(self).to,
            final(self).data == old(self).data,
    {
        self.from = Some(value);
    }

    /// Records the `to` field.
    pub fn set_to(&mut self, value: String)
        ensures
            final(self).to == Some(value),
            final(self).from == old(self).from,
            final(self).data == old(self).data,
    {
        self.to = Some(value);
    }

    /// Records the uploaded file.
    pub fn set_file(&mut self, bytes: Vec<u8>)
        ensures
            final(self).data == Some(bytes),
            final(self).from == old(self).from,
            final(self).to == old(self).to,
    {
        self.data = Some(bytes);
    }
}

/// A form field as read: the value of `from` or `to`, the bytes of `file`,
/// or another field, which is not read.
#[derive(Debug)]
pub enum Field {
    From(String),
    To(String),
    File(Vec<u8>),
    Ignored,
}

/// What an upload holds: `from`, `to` and the file's bytes.
pub open spec fn upload_view(u: Upload) -> (Option<Seq<char>>, Option<Seq<char>>, Option<Seq<u8>>) {
    (
        match u.from {
            Some(f) => Some(f@),
            None => None,
        },
        match u.to {
            Some(t) => Some(t@),
            None => None,
        },
        bytes_of(u.data),
    )
}

/// What the fields `fields`, read in order into an empty upload, leave in it:
/// for each of `from`, `to` and `file` the value of its last occurrence.
pub open spec fn gathered(fields: Seq<Field>) -> (Option<Seq<char>>, Option<Seq<char>>, Option<Seq<u8>>)
    decreases fields.len(),
{
    if fields.len() == 0 {
        (None, None, None)
    } else {
        let g = gathered(fields.drop_last());
        match fields.last() {
            Field::From(v) => (Some(v@), g.1, g.2),
            Field::To(v) => (g.0, Some(v@), g.2),
            Field::File(b) => (g.0, g.1, Some(b@)),
            Field::Ignored => g,
        }
    }
}

impl Upload {
    /// Records one field, as read.
    pub fn record(&mut self, field: Field)
        ensures
            upload_view(*final(self)) == match field {
                Field::From(v) => (Some(v@), upload_view(*old(self)).1, upload_view(*old(self)).2),
                Field::To(v) => (upload_view(*old(self)).0, Some(v@), upload_view(*old(self)).2),
                Field::File(b) => (upload_view(*old(self)).0, upload_view(*old(self)).1, Some(b@)),
                Field::Ignored => upload_view(*old(self)),
            },
    {
        match field {
            Field::From(v) => self.set_from(v),
            Field::To(v) => self.set_to(v),
            Field::File(b) => self.set_file(b),
            Field::Ignored => {},
        }
    }

    /// The upload that the fields `fields` make, read in order.
    pub fn gather(fields: Vec<Field>) -> (r: Self)
        ensures
            upload_view(r) == gathered(fields@),
    {
        let mut u = Upload::new();
        let ghost all = fields@;
        let mut rest = fields;
        let ghost n = all.len();
        assert(all.subrange(0, 0) =~= Seq::<Field>::empty());
        assert(rest@ =~= all.subrange(0, n as int));
        while rest.len() > 0
            invariant
                n == all.len(),
                rest@.len() <= n,
                rest@ == all.subrange(n - rest@.len(), n as int),
                upload_view(u) == gathered(all.subrange(0, n - rest@.len())),
            decreases rest.len(),
        {
            let ghost k = n - rest@.len();
            let f = rest.remove(0);
            assert(f == all[k]);
            assert(all.subrange(0, k + 1).drop_last() =~= all.subrange(0, k));
            u.record(f);
            assert(rest@ =~= all.subrange(n - rest@.len(), n as int));
        }
        assert(all.subrange(0, n as int) =~= all);
        u
    }
}

/// Fields of other names change nothing, wherever they stand.
pub proof fn lemma_ignored_fields_change_nothing(fields: Seq<Field>, k: int)
    requires
        0 <= k <= fields.len(),
    ensures
        gathered(fields.insert(k, Field::Ignored)) == gathered(fields),
    decreases fields.len(),
{
    let ins = fields.insert(k, Field::Ignored);
    if k == fields.len() {
        assert(ins.drop_last() =~= fields);
    } else {
        assert(ins.drop_last() =~= fields.drop_last().insert(k, Field::Ignored));
        assert(ins.last() == fields.last());
        lemma_ignored_fields_change_nothing(fields.drop_last(), k);
    }
}

/// The last `from` field wins: if `fields[k]` is `from` and no later field
/// is, the gathered `from` is its value (and likewise for `to` and `file`).
pub proof fn lemma_last_field_wins(fields: Seq<Field>, k: int)
    requires
        0 <= k < fields.len(),
    ensures
        fields[k] is From && (forall|j: int| k < j < fields.len() ==> !(#[trigger] fields[j] is From))
            ==> gathered(fields).0 == Some(fields[k]->From_0@),
        fields[k] is To && (forall|j: int| k < j < fields.len() ==> !(#[trigger] fields[j] is To))
            ==> gathered(fields).1 == Some(fields[k]->To_0@),
        fields[k] is File && (forall|j: int| k < j < fields.len() ==> !(#[trigger] fields[j] is File))
            ==> gathered(fields).2 == Some(fields[k]->File_0@),
    decreases fields.len(),
{
    if k < fields.len() - 1 {
        let shorter = fields.drop_last();
        assert(shorter[k] == fields[k]);
        assert forall|j: int| k < j < shorter.len() implies shorter[j] == #[trigger] fields[j] by {}
        lemma_last_field_wins(shorter, k);
    }
}

/// An admitted request: lower-cased formats, a non-empty file and its kind.
#[derive(Debug)]
pub struct Job {
    pub from: String,
    pub to: String,
    pub data: Vec<u8>,
    pub kind: Kind,
}

impl Job {
    /// The job's kind is the whitelist's answer for its pair, and its file is not empty.
    pub open spec fn wf(&self) -> bool {
        &&& classify_spec(self.from@, self.to@) == Some(self.kind)
        &&& self.data@.len() > 0
    }
}

/// Whether `r` is the answer to a request with (lower-cased) `from`, `to`
/// and file `data`: no file, an empty file and a pair off the whitelist are
/// refused in that order, with status 400; otherwise the job is admitted.
pub open spec fn admission(
    r: Result<Job, AppError>,
    from: Seq<char>,
    to: Seq<char>,
    data: Option<Seq<u8>>,
) -> bool {
    match data {
        None => r matches Err(e) && answers(e, Failure::MissingFile),
        Some(d) => if d.len() == 0 {
            r matches Err(e) && answers(e, Failure::EmptyFile)
        } else {
            match classify_spec(from, to) {
                None => r matches Err(e) && e.status == BAD_REQUEST && e.message@
                    == unsupported_message(from, to),
                Some(k) => r matches Ok(job) && job.wf() && job.from@ == from && job.to@ == to
                    && job.data@ == d && job.kind == k,
            }
        },
    }
}

/// Admits or refuses a request whose formats are already lower-cased.
pub fn admit_request(from: String, to: String, data: Option<Vec<u8>>) -> (r: Result<Job, AppError>)
    ensures
        admission(r, from@, to@, bytes_of(data)),
{
    let data = match data {
        None => return Err(Failure::MissingFile.into_app_error()),
        Some(d) => d,
    };
    if data.len() == 0 {
        return Err(Failure::EmptyFile.into_app_error());
    }
    match classify(from.as_str(), to.as_str()) {
        Some(kind) => Ok(Job { from, to, data, kind }),
        None => Err(Failure::Unsupported { from, to }.into_app_error()),
    }
}

/// The lower-case form of a text, in the sense of `str::to_lowercase`.
pub uninterp spec fn lowercase(s: Seq<char>) -> Seq<char>;

/// ASCII lower case of one character.
pub open spec fn ascii_lower(c: char) -> char {
    if 'A' <= c <= 'Z' {
        ((c as u32) + 32) as char
    } else {
        c
    }
}

/// Trusted: `str::to_lowercase`, whose result `lowercase` names. Of an
/// all-ASCII text it states what the Unicode lower-case mapping gives: each
/// letter `A`-`Z` becomes `a`-`z` and every other character stays.
#[verifier::external_body]
fn to_lowercase(s: &str) -> (r: String)
    ensures
        r@ == lowercase(s@),
        is_ascii_chars(s@) ==> r@ == s@.map_values(|c: char| ascii_lower(c)),
{
    s.to_lowercase()
}

impl Upload {
    /// Validates the gathered fields: `from` and `to` must be present (they
    /// are compared in lower case), then `admit_request` decides.
    pub fn into_job(self) -> (r: Result<Job, AppError>)
        ensures
            self.from is None ==> (r matches Err(e) && answers(e, Failure::MissingFrom)),
            self.from is Some && self.to is None ==> (r matches Err(e) && answers(
                e,
                Failure::MissingTo,
            )),
            self.from is Some && self.to is Some ==> {
                &&& admission(
                    r,
                    lowercase(self.from->0@),
                    lowercase(self.to->0@),
                    bytes_of(self.data),
                )
                &&& is_ascii_chars(self.from->0@) ==> lowercase(self.from->0@)
                    == self.from->0@.map_values(|c: char| ascii_lower(c))
                &&& is_ascii_chars(self.to->0@) ==> lowercase(self.to->0@)
                    == self.to->0@.map_values(|c: char| ascii_lower(c))
            },
    {
        let Upload { from, to, data } = self;
        let from = match from {
            None => return Err(Failure::MissingFrom.into_app_error()),
            Some(f) => to_lowercase(f.as_str()),
        };
        let to = match to {
            None => return Err(Failure::MissingTo.into_app_error()),
            Some(t) => to_lowercase(t.as_str()),
        };
        admit_request(from, to, data)
    }
}

} // verus!
