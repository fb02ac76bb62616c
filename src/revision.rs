//! The records of a file's history and the inputs and outputs of the
//! operations that append to it.

use vstd::prelude::*;

verus! {

/// What a revision did to its file.
#[derive(Clone, Copy, Debug, PartialEq, Eq, Structural)]
pub enum FileRevisionType {
    Create,
    Update,
    Delete,
    Undelete,
}

/// A group of fields that changes (and is hidden) as a unit.
#[derive(Clone, Copy, Debug, PartialEq, Eq, Structural)]
pub enum FieldGroup {
    Page,
    Name,
    Blob,
    Licensing,
}

impl FieldGroup {
    /// The tag under which the group is displayed.
    pub fn as_str(&self) -> (r: &'static str)
        ensures
            r@ == self.tag(),
    {
        match self {
            FieldGroup::Page => "page",
            FieldGroup::Name => "name",
            FieldGroup::Blob => "blob",
            FieldGroup::Licensing => "licensing",
        }
    }

    /// The tag's text.
    pub open spec fn tag(&self) -> Seq<char> {
        match self {
            FieldGroup::Page => "page"@,
            FieldGroup::Name => "name"@,
            FieldGroup::Blob => "blob"@,
            FieldGroup::Licensing => "licensing"@,
        }
    }
}

/// Which side of an anchor revision number a range scan covers.
#[derive(Clone, Copy, Debug, PartialEq, Eq, Structural)]
pub enum FetchDirection {
    Before,
    After,
}

/// A field of a partial update: left alone, or given a value.
#[derive(Clone, Debug)]
pub enum ProvidedValue<T> {
    Unset,
    Provided(T),
}

/// The content of a file: its hash, size and MIME type change together.
#[derive(Clone, Debug)]
pub struct FileBlob {
    pub s3_hash: Vec<u8>,
    pub size_hint: i64,
    pub mime_hint: String,
}

/// Why an operation on file revisions was refused.
#[derive(Clone, Copy, Debug, PartialEq, Eq, Structural)]
pub enum Error {
    FileNameEmpty,
    FileNameTooLong,
    FileMimeEmpty,
    FileNotFound,
    FileRevisionNotFound,
    CannotHideLatestRevision,
}

/// One entry of a file's history.
#[derive(Clone, Debug)]
pub struct FileRevisionModel {
    pub revision_id: i64,
    pub revision_type: FileRevisionType,
    pub revision_number: i32,
    pub site_id: i64,
    pub page_id: i64,
    pub file_id: i64,
    pub user_id: i64,
    pub name: String,
    pub s3_hash: Vec<u8>,
    pub size_hint: i64,
    pub mime_hint: String,
    pub licensing: String,
    pub changes: Vec<FieldGroup>,
    pub hidden: Vec<FieldGroup>,
    pub comments: String,
}

/// The mathematical value of a `FileRevisionModel`.
pub ghost struct RevisionView {
    pub revision_id: i64,
    pub revision_type: FileRevisionType,
    pub revision_number: i32,
    pub site_id: i64,
    pub page_id: i64,
    pub file_id: i64,
    pub user_id: i64,
    pub name: Seq<char>,
    pub s3_hash: Seq<u8>,
    pub size_hint: i64,
    pub mime_hint: Seq<char>,
    pub licensing: Seq<char>,
    pub changes: Seq<FieldGroup>,
    pub hidden: Seq<FieldGroup>,
    pub comments: Seq<char>,
}

impl RevisionView {
    /// The same revision with another set of hidden field groups.
    pub open spec fn with_hidden(self, hidden: Seq<FieldGroup>) -> RevisionView {
        RevisionView { hidden, ..self }
    }
}

impl View for FileRevisionModel {
    type V = RevisionView;

    open spec fn view(&self) -> RevisionView {
        RevisionView {
            revision_id: self.revision_id,
            revision_type: self.revision_type,
            revision_number: self.revision_number,
            site_id: self.site_id,
            page_id: self.page_id,
            file_id: self.file_id,
            user_id: self.user_id,
            name: self.name@,
            s3_hash: self.s3_hash@,
            size_hint: self.size_hint,
            mime_hint: self.mime_hint@,
            licensing: self.licensing@,
            changes: self.changes@,
            hidden: self.hidden@,
            comments: self.comments@,
        }
    }
}

/// A copy of a byte vector.
pub fn copy_bytes(v: &Vec<u8>) -> (r: Vec<u8>)
    ensures
        r@ == v@,
{
    let r = v.clone();
    assert(r@ =~= v@);
    r
}

/// A copy of a list of field groups.
pub fn copy_groups(v: &Vec<FieldGroup>) -> (r: Vec<FieldGroup>)
    ensures
        r@ == v@,
{
    let mut r: Vec<FieldGroup> = Vec::new();
    let mut i: usize = 0;
    while i < v.len()
        invariant
            i <= v.len(),
            r@ == v@.subrange(0, i as int),
        decreases v.len() - i,
    {
        r.push(v[i]);
        i = i + 1;
        assert(r@ =~= v@.subrange(0, i as int));
    }
    assert(v@.subrange(0, v.len() as int) =~= v@);
    r
}

impl FileRevisionModel {
    /// A copy of this revision.
    pub fn duplicate(&self) -> (r: FileRevisionModel)
        ensures
            r@ == self@,
    {
        FileRevisionModel {
            revision_id: self.revision_id,
            revision_type: self.revision_type,
            revision_number: self.revision_number,
            site_id: self.site_id,
            page_id: self.page_id,
            file_id: self.file_id,
            user_id: self.user_id,
            name: self.name.clone(),
            s3_hash: copy_bytes(&self.s3_hash),
            size_hint: self.size_hint,
            mime_hint: self.mime_hint.clone(),
            licensing: self.licensing.clone(),
            changes: copy_groups(&self.changes),
            hidden: copy_groups(&self.hidden),
            comments: self.comments.clone(),
        }
    }
}

} // verus!
