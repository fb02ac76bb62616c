//! Merging a partial update into the previous snapshot, finding which field
//! groups it changes, and checking the merged snapshot.

use vstd::prelude::*;
use vstd::utf8::encode_utf8;
use crate::revision::{Error, FieldGroup, FileBlob, FileRevisionModel, ProvidedValue, RevisionView};

verus! {

/// The fields that an update may set; each may be left unset.
#[derive(Clone, Debug)]
pub struct CreateFileRevisionBody {
    pub page_id: ProvidedValue<i64>,
    pub name: ProvidedValue<String>,
    pub blob: ProvidedValue<FileBlob>,
    pub licensing: ProvidedValue<String>,
}

/// The snapshot after an update, and the field groups it changed.
pub struct FileChanges {
    pub page_id: i64,
    pub name: String,
    pub s3_hash: Vec<u8>,
    pub size_hint: i64,
    pub mime_hint: String,
    pub licensing: String,
    pub changes: Vec<FieldGroup>,
}

/// The length of a string in UTF-8 code units, as `str::len` reports it.
pub open spec fn byte_len(s: Seq<char>) -> usize {
    encode_utf8(s).len() as usize
}

/// The full set of field groups, in display order.
pub open spec fn all_groups() -> Seq<FieldGroup> {
    seq![FieldGroup::Page, FieldGroup::Name, FieldGroup::Blob, FieldGroup::Licensing]
}

/// `group` as a one-element list where `changed` holds, else nothing.
pub open spec fn group_if(changed: bool, group: FieldGroup) -> Seq<FieldGroup> {
    if changed {
        seq![group]
    } else {
        seq![]
    }
}

/// The changed groups, in display order.
pub open spec fn groups_of(page: bool, name: bool, blob: bool, licensing: bool) -> Seq<FieldGroup> {
    group_if(page, FieldGroup::Page) + group_if(name, FieldGroup::Name) + group_if(
        blob,
        FieldGroup::Blob,
    ) + group_if(licensing, FieldGroup::Licensing)
}

pub open spec fn page_changed(current: i64, p: ProvidedValue<i64>) -> bool {
    match p {
        ProvidedValue::Provided(v) => v != current,
        ProvidedValue::Unset => false,
    }
}

pub open spec fn text_changed(current: Seq<char>, p: ProvidedValue<String>) -> bool {
    match p {
        ProvidedValue::Provided(v) => v@ != current,
        ProvidedValue::Unset => false,
    }
}

pub open spec fn blob_changed(previous: RevisionView, p: ProvidedValue<FileBlob>) -> bool {
    match p {
        ProvidedValue::Provided(b) => b.s3_hash@ != previous.s3_hash || b.size_hint
            != previous.size_hint || b.mime_hint@ != previous.mime_hint,
        ProvidedValue::Unset => false,
    }
}

/// The field groups that `body` changes relative to `previous` on page `page_id`.
pub open spec fn changed_groups(
    previous: RevisionView,
    page_id: i64,
    body: CreateFileRevisionBody,
) -> Seq<FieldGroup> {
    groups_of(
        page_changed(page_id, body.page_id),
        text_changed(previous.name, body.name),
        blob_changed(previous, body.blob),
        text_changed(previous.licensing, body.licensing),
    )
}

/// The page after an update on page `page_id`.
pub open spec fn merged_page(page_id: i64, body: CreateFileRevisionBody) -> i64 {
    match body.page_id {
        ProvidedValue::Provided(v) => v,
        ProvidedValue::Unset => page_id,
    }
}

/// A text field after an update: the provided value, else the current one.
pub open spec fn merged_text(current: Seq<char>, p: ProvidedValue<String>) -> Seq<char> {
    match p {
        ProvidedValue::Provided(v) => v@,
        ProvidedValue::Unset => current,
    }
}

/// The blob after an update, as hash, size and MIME hint.
pub open spec fn merged_blob(previous: RevisionView, p: ProvidedValue<FileBlob>) -> (
    Seq<u8>,
    i64,
    Seq<char>,
) {
    match p {
        ProvidedValue::Provided(b) => (b.s3_hash@, b.size_hint, b.mime_hint@),
        ProvidedValue::Unset => (previous.s3_hash, previous.size_hint, previous.mime_hint),
    }
}

impl FileChanges {
    /// `self` is `previous` merged with `body`: each provided field takes the
    /// new value, every other field keeps the old one.
    pub open spec fn merges(
        &self,
        previous: RevisionView,
        page_id: i64,
        body: CreateFileRevisionBody,
    ) -> bool {
        &&& self.page_id == merged_page(page_id, body)
        &&& self.name@ == merged_text(previous.name, body.name)
        &&& self.licensing@ == merged_text(previous.licensing, body.licensing)
        &&& (self.s3_hash@, self.size_hint, self.mime_hint@) == merged_blob(previous, body.blob)
        &&& self.changes@ == changed_groups(previous, page_id, body)
    }
}

/// The number of the revision that follows `previous`.
///
/// `previous` must belong to `file_id` on `page_id`: anything else is a
/// mistake of the caller, which is ruled out by the precondition.
pub fn next_revision_number(previous: &FileRevisionModel, page_id: i64, file_id: i64) -> (r: i32)
    requires
        previous.file_id == file_id,
        previous.page_id == page_id,
        previous.revision_number < i32::MAX,
    ensures
        r == previous.revision_number + 1,
{
    previous.revision_number + 1
}

/// Merges `body` into the snapshot of `previous` (on page `page_id`),
/// listing the groups whose value differs.
pub fn detect_changes(previous: &FileRevisionModel, page_id: i64, body: CreateFileRevisionBody) -> (r:
    FileChanges)
    ensures
        r.merges(previous@, page_id, body),
{
    let ghost body0 = body;
    let mut changes: Vec<FieldGroup> = Vec::new();
    let mut new_page_id = page_id;
    let mut name = previous.name.clone();
    let mut s3_hash = crate::revision::copy_bytes(&previous.s3_hash);
    let mut size_hint = previous.size_hint;
    let mut mime_hint = previous.mime_hint.clone();
    let mut licensing = previous.licensing.clone();

    if let ProvidedValue::Provided(v) = body.page_id {
        if v != page_id {
            changes.push(FieldGroup::Page);
        }
        new_page_id = v;
    }
    assert(changes@ =~= group_if(page_changed(page_id, body0.page_id), FieldGroup::Page));
    let ghost c1 = changes@;

    if let ProvidedValue::Provided(v) = body.name {
        if v != name {
            changes.push(FieldGroup::Name);
        }
        name = v;
    }
    assert(changes@ =~= c1 + group_if(text_changed(previous.name@, body0.name), FieldGroup::Name));
    let ghost c2 = changes@;

    if let ProvidedValue::Provided(b) = body.blob {
        let same_hash = b.s3_hash == s3_hash;
        proof {
            if same_hash {
                assert(b.s3_hash@ =~= s3_hash@);
            }
            if b.s3_hash@ == s3_hash@ {
                assert(b.s3_hash@ =~= s3_hash@);
            }
        }
        if !same_hash || b.size_hint != size_hint || b.mime_hint != mime_hint {
            changes.push(FieldGroup::Blob);
        }
        s3_hash = b.s3_hash;
        size_hint = b.size_hint;
        mime_hint = b.mime_hint;
    }
    assert(changes@ =~= c2 + group_if(blob_changed(previous@, body0.blob), FieldGroup::Blob));
    let ghost c3 = changes@;

    if let ProvidedValue::Provided(v) = body.licensing {
        if v != licensing {
            changes.push(FieldGroup::Licensing);
        }
        licensing = v;
    }
    assert(changes@ =~= c3 + group_if(
        text_changed(previous.licensing@, body0.licensing),
        FieldGroup::Licensing,
    ));

    FileChanges { page_id: new_page_id, name, s3_hash, size_hint, mime_hint, licensing, changes }
}

/// The error that the merged snapshot's name and MIME hint give, if any.
pub open spec fn validation_error(name: Seq<char>, mime_hint: Seq<char>) -> Option<Error> {
    if name.len() == 0 {
        Some(Error::FileNameEmpty)
    } else if byte_len(name) >= 256 {
        Some(Error::FileNameTooLong)
    } else if mime_hint.len() == 0 {
        Some(Error::FileMimeEmpty)
    } else {
        None
    }
}

/// Checks that a file name is non-empty and shorter than 256 code units,
/// and that a MIME hint is non-empty.
pub fn validate_file(name: &String, mime_hint: &String) -> (r: Result<(), Error>)
    ensures
        r is Err <==> validation_error(name@, mime_hint@) is Some,
        r is Err ==> validation_error(name@, mime_hint@) == Some(r->Err_0),
{
    if name.as_str().is_empty() {
        return Err(Error::FileNameEmpty);
    }
    if name.as_str().len() >= 256 {
        return Err(Error::FileNameTooLong);
    }
    if mime_hint.as_str().is_empty() {
        return Err(Error::FileMimeEmpty);
    }
    Ok(())
}

} // verus!
