//! The operations that append revisions to a file's history (create,
//! update, delete, undelete), redaction of past revisions, and lookups.
//!
//! Each appending operation also queues the page outdate that it calls for
//! in the same ledger, so that the two are committed together.

use vstd::prelude::*;
use crate::changes::{
    all_groups, changed_groups, detect_changes, groups_of, merged_blob, merged_page,
    merged_text, next_revision_number, validate_file, validation_error, CreateFileRevisionBody,
};
use crate::ledger::{
    in_direction, lemma_filter_all, lemma_filter_push, of_file, OutdateKind, PageOutdate,
    RevisionLedger,
};
use crate::revision::{
    copy_bytes, Error, FetchDirection, FieldGroup, FileRevisionModel, FileRevisionType,
    ProvidedValue, RevisionView,
};

verus! {

/// The lifecycle operations on file revisions.
pub struct FileRevisionService;

pub struct CreateFirstFileRevision {
    pub site_id: i64,
    pub page_id: i64,
    pub file_id: i64,
    pub user_id: i64,
    pub name: String,
    pub s3_hash: Vec<u8>,
    pub size_hint: i64,
    pub mime_hint: String,
    pub licensing: String,
    pub comments: String,
}

#[derive(Clone, Copy, Debug, PartialEq, Eq, Structural)]
pub struct CreateFirstFileRevisionOutput {
    pub file_id: i64,
    pub file_revision_id: i64,
}

pub struct CreateFileRevision {
    pub site_id: i64,
    pub page_id: i64,
    pub file_id: i64,
    pub user_id: i64,
    pub comments: String,
    pub body: CreateFileRevisionBody,
}

#[derive(Clone, Copy, Debug, PartialEq, Eq, Structural)]
pub struct CreateFileRevisionOutput {
    pub file_revision_id: i64,
    pub file_revision_number: i32,
}

pub struct CreateTombstoneFileRevision {
    pub site_id: i64,
    pub page_id: i64,
    pub file_id: i64,
    pub user_id: i64,
    pub comments: String,
}

pub struct CreateResurrectionFileRevision {
    pub site_id: i64,
    pub page_id: i64,
    pub file_id: i64,
    pub user_id: i64,
    pub new_page_id: i64,
    pub new_name: String,
    pub comments: String,
}

pub struct UpdateFileRevision {
    pub site_id: i64,
    pub file_id: i64,
    pub revision_id: i64,
    pub hidden: Vec<FieldGroup>,
}

#[derive(Clone, Copy, Debug, PartialEq, Eq, Structural)]
pub struct GetFileRevision {
    pub site_id: i64,
    pub file_id: i64,
    pub revision_number: i32,
}

#[derive(Clone, Copy, Debug, PartialEq, Eq, Structural)]
pub struct GetFileRevisionRange {
    pub site_id: i64,
    pub file_id: i64,
    pub revision_number: i32,
    pub revision_direction: FetchDirection,
    pub limit: u64,
}

/// The first revision of a file, with the given ID.
pub open spec fn first_revision(input: CreateFirstFileRevision, id: i64) -> RevisionView {
    RevisionView {
        revision_id: id,
        revision_type: FileRevisionType::Create,
        revision_number: 1,
        site_id: input.site_id,
        page_id: input.page_id,
        file_id: input.file_id,
        user_id: input.user_id,
        name: input.name@,
        s3_hash: input.s3_hash@,
        size_hint: input.size_hint,
        mime_hint: input.mime_hint@,
        licensing: input.licensing@,
        changes: all_groups(),
        hidden: seq![],
        comments: input.comments@,
    }
}

/// The revision that an update appends after `previous`, with the given ID.
pub open spec fn update_revision(previous: RevisionView, input: CreateFileRevision, id: i64) -> RevisionView {
    let blob = merged_blob(previous, input.body.blob);
    RevisionView {
        revision_id: id,
        revision_type: FileRevisionType::Update,
        revision_number: (previous.revision_number + 1) as i32,
        site_id: input.site_id,
        page_id: merged_page(input.page_id, input.body),
        file_id: input.file_id,
        user_id: input.user_id,
        name: merged_text(previous.name, input.body.name),
        s3_hash: blob.0,
        size_hint: blob.1,
        mime_hint: blob.2,
        licensing: merged_text(previous.licensing, input.body.licensing),
        changes: changed_groups(previous, input.page_id, input.body),
        hidden: seq![],
        comments: input.comments@,
    }
}

/// The revision that deletes the file after `previous`, with the given ID:
/// the snapshot stays as it was.
pub open spec fn tombstone_revision(
    previous: RevisionView,
    input: CreateTombstoneFileRevision,
    id: i64,
) -> RevisionView {
    RevisionView {
        revision_id: id,
        revision_type: FileRevisionType::Delete,
        revision_number: (previous.revision_number + 1) as i32,
        site_id: input.site_id,
        page_id: input.page_id,
        file_id: input.file_id,
        user_id: input.user_id,
        changes: seq![],
        hidden: seq![],
        comments: input.comments@,
        ..previous
    }
}

/// The field groups that an undelete changes: the page and the name.
pub open spec fn resurrection_changes(previous: RevisionView, input: CreateResurrectionFileRevision) -> Seq<
    FieldGroup,
> {
    groups_of(input.page_id != input.new_page_id, previous.name != input.new_name@, false, false)
}

/// The revision that undeletes the file after `previous`, with the given ID:
/// it may move the file and rename it, and keeps its content.
pub open spec fn resurrection_revision(
    previous: RevisionView,
    input: CreateResurrectionFileRevision,
    id: i64,
) -> RevisionView {
    RevisionView {
        revision_id: id,
        revision_type: FileRevisionType::Undelete,
        revision_number: (previous.revision_number + 1) as i32,
        site_id: input.site_id,
        page_id: input.new_page_id,
        file_id: input.file_id,
        user_id: input.user_id,
        name: input.new_name@,
        changes: resurrection_changes(previous, input),
        hidden: seq![],
        comments: input.comments@,
        ..previous
    }
}

/// Whether `previous` is the latest revision of the file, on `page_id`.
pub open spec fn is_previous(
    ledger: RevisionLedger,
    previous: RevisionView,
    site_id: i64,
    page_id: i64,
    file_id: i64,
) -> bool {
    &&& ledger.history(site_id, file_id).len() > 0
    &&& previous == ledger.history(site_id, file_id).last()
    &&& previous.page_id == page_id
    &&& previous.file_id == file_id
}

/// Whether every field that `body` provides equals its current value.
pub open spec fn identical_update(previous: RevisionView, page_id: i64, body: CreateFileRevisionBody) -> bool {
    &&& (body.page_id matches ProvidedValue::Provided(v) ==> v == page_id)
    &&& (body.name matches ProvidedValue::Provided(v) ==> v@ == previous.name)
    &&& (body.blob matches ProvidedValue::Provided(b) ==> b.s3_hash@ == previous.s3_hash
        && b.size_hint == previous.size_hint && b.mime_hint@ == previous.mime_hint)
    &&& (body.licensing matches ProvidedValue::Provided(v) ==> v@ == previous.licensing)
}

/// The full list of field groups.
fn all_changes() -> (r: Vec<FieldGroup>)
    ensures
        r@ == all_groups(),
{
    let mut r: Vec<FieldGroup> = Vec::new();
    r.push(FieldGroup::Page);
    r.push(FieldGroup::Name);
    r.push(FieldGroup::Blob);
    r.push(FieldGroup::Licensing);
    assert(r@ =~= all_groups());
    r
}

impl FileRevisionService {
    /// Facts about the latest revision that follow from the ledger's invariant.
    proof fn lemma_previous(ledger: &RevisionLedger, previous: RevisionView, site_id: i64, file_id: i64)
        requires
            ledger.wf(),
            ledger.history(site_id, file_id).len() > 0,
            previous == ledger.history(site_id, file_id).last(),
        ensures
            previous.revision_number == ledger.history(site_id, file_id).len(),
            previous.site_id == site_id,
            previous.file_id == file_id,
    {
        let h = ledger.history(site_id, file_id);
        ledger.lemma_wf_numbers(site_id, file_id, h.len() - 1);
        ledger.records().lemma_filter_pred(of_file(site_id, file_id), h.len() - 1);
    }

    /// Creates the first revision of a newly uploaded file, and queues a
    /// displacing outdate of its page.
    pub fn create_first(ledger: &mut RevisionLedger, input: CreateFirstFileRevision) -> (r:
        CreateFirstFileRevisionOutput)
        requires
            old(ledger).wf(),
            old(ledger).has_room(),
            old(ledger).history(input.site_id, input.file_id).len() == 0,
        ensures
            final(ledger).wf(),
            r.file_id == input.file_id,
            r.file_revision_id == old(ledger).next_id(),
            final(ledger).records() == old(ledger).records().push(
                first_revision(input, old(ledger).next_id()),
            ),
            final(ledger).pending_outdates() == old(ledger).pending_outdates().push(
                (PageOutdate {
                    kind: OutdateKind::Displace,
                    site_id: input.site_id,
                    page_id: input.page_id,
                }),
            ),
    {
        let ghost input0 = input;
        let revision_id = ledger.next_revision_id();
        let file_id = input.file_id;
        let model = FileRevisionModel {
            revision_id,
            revision_type: FileRevisionType::Create,
            revision_number: 1,
            site_id: input.site_id,
            page_id: input.page_id,
            file_id: input.file_id,
            user_id: input.user_id,
            name: input.name,
            s3_hash: input.s3_hash,
            size_hint: input.size_hint,
            mime_hint: input.mime_hint,
            licensing: input.licensing,
            changes: all_changes(),
            hidden: Vec::new(),
            comments: input.comments,
        };
        assert(model@ == first_revision(input0, revision_id));
        ledger.append(model);
        ledger.push_outdate(
            PageOutdate { kind: OutdateKind::Displace, site_id: input.site_id, page_id: input.page_id },
        );
        CreateFirstFileRevisionOutput { file_id, file_revision_id: revision_id }
    }

    /// Creates a revision that updates an existing file.
    ///
    /// Nothing is appended or queued where no provided field differs from
    /// `previous`; an invalid merged snapshot is refused before any write.
    pub fn create(
        ledger: &mut RevisionLedger,
        input: CreateFileRevision,
        previous: &FileRevisionModel,
    ) -> (r: Result<Option<CreateFileRevisionOutput>, Error>)
        requires
            old(ledger).wf(),
            old(ledger).has_room(),
            is_previous(*old(ledger), previous@, input.site_id, input.page_id, input.file_id),
            old(ledger).history(input.site_id, input.file_id).len() < i32::MAX,
            previous.revision_type != FileRevisionType::Delete,
        ensures
            final(ledger).wf(),
            identical_update(previous@, input.page_id, input.body) ==> {
                &&& r == Ok::<Option<CreateFileRevisionOutput>, Error>(None)
                &&& final(ledger).records() == old(ledger).records()
                &&& final(ledger).pending_outdates() == old(ledger).pending_outdates()
            },
            ({
                let changes = changed_groups(previous@, input.page_id, input.body);
                let new_name = merged_text(previous@.name, input.body.name);
                let new_mime = merged_blob(previous@, input.body.blob).2;
                if changes.len() == 0 || validation_error(new_name, new_mime) is Some {
                    &&& r == if changes.len() == 0 {
                        Ok::<Option<CreateFileRevisionOutput>, Error>(None)
                    } else {
                        Err::<Option<CreateFileRevisionOutput>, Error>(
                            validation_error(new_name, new_mime).unwrap(),
                        )
                    }
                    &&& final(ledger).records() == old(ledger).records()
                    &&& final(ledger).pending_outdates() == old(ledger).pending_outdates()
                } else {
                    &&& r == Ok::<Option<CreateFileRevisionOutput>, Error>(
                        Some(
                            CreateFileRevisionOutput {
                                file_revision_id: old(ledger).next_id(),
                                file_revision_number: (previous.revision_number + 1) as i32,
                            },
                        ),
                    )
                    &&& final(ledger).records() == old(ledger).records().push(
                        update_revision(previous@, input, old(ledger).next_id()),
                    )
                    &&& final(ledger).pending_outdates() == old(ledger).pending_outdates().push(
                        (PageOutdate {
                            kind: OutdateKind::Edit,
                            site_id: input.site_id,
                            page_id: merged_page(input.page_id, input.body),
                        }),
                    )
                }
            }),
    {
        proof {
            Self::lemma_previous(ledger, previous@, input.site_id, input.file_id);
        }
        let ghost input0 = input;
        let revision_number = next_revision_number(previous, input.page_id, input.file_id);
        let merged = detect_changes(previous, input.page_id, input.body);
        if merged.changes.len() == 0 {
            return Ok(None);
        }
        match validate_file(&merged.name, &merged.mime_hint) {
            Err(e) => {
                return Err(e);
            },
            Ok(()) => {},
        }
        let revision_id = ledger.next_revision_id();
        let model = FileRevisionModel {
            revision_id,
            revision_type: FileRevisionType::Update,
            revision_number,
            site_id: input.site_id,
            page_id: merged.page_id,
            file_id: input.file_id,
            user_id: input.user_id,
            name: merged.name,
            s3_hash: merged.s3_hash,
            size_hint: merged.size_hint,
            mime_hint: merged.mime_hint,
            licensing: merged.licensing,
            changes: merged.changes,
            hidden: Vec::new(),
            comments: input.comments,
        };
        assert(model@ == update_revision(previous@, input0, revision_id));
        ledger.append(model);
        ledger.push_outdate(
            PageOutdate { kind: OutdateKind::Edit, site_id: input.site_id, page_id: merged.page_id },
        );
        Ok(
            Some(
                CreateFileRevisionOutput {
                    file_revision_id: revision_id,
                    file_revision_number: revision_number,
                },
            ),
        )
    }

    /// Creates a revision that marks a live file as deleted, keeping its
    /// snapshot, and queues an outdate of its page.
    pub fn create_tombstone(
        ledger: &mut RevisionLedger,
        input: CreateTombstoneFileRevision,
        previous: &FileRevisionModel,
    ) -> (r: CreateFileRevisionOutput)
        requires
            old(ledger).wf(),
            old(ledger).has_room(),
            is_previous(*old(ledger), previous@, input.site_id, input.page_id, input.file_id),
            old(ledger).history(input.site_id, input.file_id).len() < i32::MAX,
            previous.revision_type != FileRevisionType::Delete,
        ensures
            final(ledger).wf(),
            r == (CreateFileRevisionOutput {
                file_revision_id: old(ledger).next_id(),
                file_revision_number: (previous.revision_number + 1) as i32,
            }),
            final(ledger).records() == old(ledger).records().push(
                tombstone_revision(previous@, input, old(ledger).next_id()),
            ),
            final(ledger).pending_outdates() == old(ledger).pending_outdates().push(
                (PageOutdate { kind: OutdateKind::Edit, site_id: input.site_id, page_id: input.page_id }),
            ),
    {
        proof {
            Self::lemma_previous(ledger, previous@, input.site_id, input.file_id);
        }
        let ghost input0 = input;
        let revision_number = next_revision_number(previous, input.page_id, input.file_id);
        let revision_id = ledger.next_revision_id();
        let model = FileRevisionModel {
            revision_id,
            revision_type: FileRevisionType::Delete,
            revision_number,
            site_id: input.site_id,
            page_id: input.page_id,
            file_id: input.file_id,
            user_id: input.user_id,
            name: previous.name.clone(),
            s3_hash: copy_bytes(&previous.s3_hash),
            size_hint: previous.size_hint,
            mime_hint: previous.mime_hint.clone(),
            licensing: previous.licensing.clone(),
            changes: Vec::new(),
            hidden: Vec::new(),
            comments: input.comments,
        };
        assert(model@ == tombstone_revision(previous@, input0, revision_id));
        ledger.append(model);
        ledger.push_outdate(
            PageOutdate { kind: OutdateKind::Edit, site_id: input.site_id, page_id: input.page_id },
        );
        CreateFileRevisionOutput {
            file_revision_id: revision_id,
            file_revision_number: revision_number,
        }
    }

    /// Creates a revision that restores a deleted file, possibly on another
    /// page and under another name, and queues an outdate of the page it
    /// now belongs to.
    pub fn create_resurrection(
        ledger: &mut RevisionLedger,
        input: CreateResurrectionFileRevision,
        previous: &FileRevisionModel,
    ) -> (r: CreateFileRevisionOutput)
        requires
            old(ledger).wf(),
            old(ledger).has_room(),
            is_previous(*old(ledger), previous@, input.site_id, input.page_id, input.file_id),
            old(ledger).history(input.site_id, input.file_id).len() < i32::MAX,
            previous.revision_type == FileRevisionType::Delete,
        ensures
            final(ledger).wf(),
            r == (CreateFileRevisionOutput {
                file_revision_id: old(ledger).next_id(),
                file_revision_number: (previous.revision_number + 1) as i32,
            }),
            final(ledger).records() == old(ledger).records().push(
                resurrection_revision(previous@, input, old(ledger).next_id()),
            ),
            final(ledger).pending_outdates() == old(ledger).pending_outdates().push(
                (PageOutdate {
                    kind: OutdateKind::Edit,
                    site_id: input.site_id,
                    page_id: input.new_page_id,
                }),
            ),
    {
        proof {
            Self::lemma_previous(ledger, previous@, input.site_id, input.file_id);
        }
        let ghost input0 = input;
        let revision_number = next_revision_number(previous, input.page_id, input.file_id);
        let mut changes: Vec<FieldGroup> = Vec::new();
        if input.page_id != input.new_page_id {
            changes.push(FieldGroup::Page);
        }
        if previous.name != input.new_name {
            changes.push(FieldGroup::Name);
        }
        assert(changes@ =~= resurrection_changes(previous@, input0));
        let revision_id = ledger.next_revision_id();
        let model = FileRevisionModel {
            revision_id,
            revision_type: FileRevisionType::Undelete,
            revision_number,
            site_id: input.site_id,
            page_id: input.new_page_id,
            file_id: input.file_id,
            user_id: input.user_id,
            name: input.new_name,
            s3_hash: copy_bytes(&previous.s3_hash),
            size_hint: previous.size_hint,
            mime_hint: previous.mime_hint.clone(),
            licensing: previous.licensing.clone(),
            changes,
            hidden: Vec::new(),
            comments: input.comments,
        };
        assert(model@ == resurrection_revision(previous@, input0, revision_id));
        ledger.append(model);
        ledger.push_outdate(
            PageOutdate { kind: OutdateKind::Edit, site_id: input.site_id, page_id: input.new_page_id },
        );
        CreateFileRevisionOutput {
            file_revision_id: revision_id,
            file_revision_number: revision_number,
        }
    }

    /// Hides field groups of a past revision of a file.
    ///
    /// The latest revision cannot be hidden: it is what the file shows.
    /// Nothing but the revision's hidden set changes.
    pub fn update(ledger: &mut RevisionLedger, input: UpdateFileRevision) -> (r: Result<
        FileRevisionModel,
        Error,
    >)
        requires
            old(ledger).wf(),
        ensures
            final(ledger).wf(),
            final(ledger).pending_outdates() == old(ledger).pending_outdates(),
            ({
                let h = old(ledger).history(input.site_id, input.file_id);
                let recs = old(ledger).records();
                let id = input.revision_id;
                if h.len() == 0 {
                    &&& r == Err::<FileRevisionModel, Error>(Error::FileRevisionNotFound)
                    &&& final(ledger).records() == recs
                } else if id == h.last().revision_id {
                    &&& r == Err::<FileRevisionModel, Error>(Error::CannotHideLatestRevision)
                    &&& final(ledger).records() == recs
                } else if !(1 <= id <= recs.len() && of_file(input.site_id, input.file_id)(
                    recs[id - 1],
                )) {
                    &&& r == Err::<FileRevisionModel, Error>(Error::FileRevisionNotFound)
                    &&& final(ledger).records() == recs
                } else {
                    &&& r is Ok
                    &&& r->Ok_0@ == recs[id - 1].with_hidden(input.hidden@)
                    &&& final(ledger).records() == recs.update(
                        id - 1,
                        recs[id - 1].with_hidden(input.hidden@),
                    )
                }
            }),
    {
        let latest = match ledger.latest(input.site_id, input.file_id) {
            Some(m) => m,
            None => {
                return Err(Error::FileRevisionNotFound);
            },
        };
        if input.revision_id == latest.revision_id {
            return Err(Error::CannotHideLatestRevision);
        }
        match ledger.set_hidden(input.revision_id, input.site_id, input.file_id, input.hidden) {
            Some(m) => Ok(m),
            None => Err(Error::FileRevisionNotFound),
        }
    }

    /// The latest revision of a file.
    pub fn get_latest(ledger: &RevisionLedger, site_id: i64, file_id: i64) -> (r: Result<
        FileRevisionModel,
        Error,
    >)
        ensures
            ledger.history(site_id, file_id).len() == 0 ==> r == Err::<FileRevisionModel, Error>(
                Error::FileRevisionNotFound,
            ),
            ledger.history(site_id, file_id).len() > 0 ==> r is Ok && r->Ok_0@ == ledger.history(
                site_id,
                file_id,
            ).last(),
    {
        match ledger.latest(site_id, file_id) {
            Some(m) => Ok(m),
            None => Err(Error::FileRevisionNotFound),
        }
    }

    /// The revision of a file with the given number, if there is one.
    pub fn get_optional(ledger: &RevisionLedger, input: GetFileRevision) -> (r: Option<
        FileRevisionModel,
    >)
        ensures
            r is Some <==> 1 <= input.revision_number <= ledger.history(
                input.site_id,
                input.file_id,
            ).len(),
            r matches Some(m) ==> m@ == ledger.history(input.site_id, input.file_id)[input.revision_number
                - 1],
    {
        ledger.get(input.site_id, input.file_id, input.revision_number)
    }

    /// The revision of a file with the given number.
    pub fn get(ledger: &RevisionLedger, input: GetFileRevision) -> (r: Result<FileRevisionModel, Error>)
        ensures
            r is Ok <==> 1 <= input.revision_number <= ledger.history(
                input.site_id,
                input.file_id,
            ).len(),
            r matches Ok(m) ==> m@ == ledger.history(input.site_id, input.file_id)[input.revision_number
                - 1],
            r is Err ==> r == Err::<FileRevisionModel, Error>(Error::FileRevisionNotFound),
    {
        match Self::get_optional(ledger, input) {
            Some(m) => Ok(m),
            None => Err(Error::FileRevisionNotFound),
        }
    }

    /// The number of revisions of a file; a file without any does not exist.
    pub fn count(ledger: &RevisionLedger, site_id: i64, file_id: i64) -> (r: Result<i32, Error>)
        requires
            ledger.wf(),
        ensures
            ledger.history(site_id, file_id).len() == 0 ==> r == Err::<i32, Error>(
                Error::FileNotFound,
            ),
            ledger.history(site_id, file_id).len() > 0 ==> r == Ok::<i32, Error>(
                ledger.history(site_id, file_id).len() as i32,
            ),
    {
        let n = ledger.count(site_id, file_id);
        if n == 0 {
            Err(Error::FileNotFound)
        } else {
            Ok(n as i32)
        }
    }

    /// The revisions of a file on one side of a revision number (a negative
    /// number standing for the latest), ascending, at most `limit` of them.
    pub fn get_range(ledger: &RevisionLedger, input: GetFileRevisionRange) -> (r: Vec<
        FileRevisionModel,
    >)
        ensures
            r@.map_values(|m: FileRevisionModel| m@) == ledger.range(
                input.site_id,
                input.file_id,
                input.revision_number,
                input.revision_direction,
                input.limit,
            ),
    {
        ledger.range_scan(
            input.site_id,
            input.file_id,
            input.revision_number,
            input.revision_direction,
            input.limit,
        )
    }
}

/// A full range scan of a file (from the latest revision backwards, with a
/// limit that covers its history) returns revisions numbered exactly
/// 1, 2, ..., N, where N is the number of revisions of the file.
pub proof fn lemma_full_range_is_gapless(ledger: &RevisionLedger, site_id: i64, file_id: i64, limit: u64)
    requires
        ledger.wf(),
        limit >= ledger.history(site_id, file_id).len(),
    ensures
        ledger.range(site_id, file_id, -1i32, FetchDirection::Before, limit).len() == ledger.history(
            site_id,
            file_id,
        ).len(),
        forall|j: int|
            0 <= j < ledger.history(site_id, file_id).len() ==> #[trigger] ledger.range(
                site_id,
                file_id,
                -1i32,
                FetchDirection::Before,
                limit,
            )[j].revision_number == j + 1,
{
    let q = in_direction(i32::MAX, FetchDirection::Before);
    lemma_filter_all(ledger.history(site_id, file_id), q);
    assert forall|j: int| 0 <= j < ledger.history(site_id, file_id).len() implies #[trigger] ledger.history(
        site_id,
        file_id,
    )[j].revision_number == j + 1 by {
        ledger.lemma_wf_numbers(site_id, file_id, j);
    }
}

/// An update that provides only values equal to the current ones changes
/// no field group.
pub proof fn lemma_identical_update_changes_nothing(
    previous: RevisionView,
    page_id: i64,
    body: CreateFileRevisionBody,
)
    requires
        identical_update(previous, page_id, body),
    ensures
        changed_groups(previous, page_id, body) == Seq::<FieldGroup>::empty(),
{
    assert(changed_groups(previous, page_id, body) =~= Seq::<FieldGroup>::empty());
}

/// After the first revision of a file is appended, the file's latest
/// revision is a creation numbered 1 that lists every field group as
/// changed.
pub proof fn lemma_create_first_then_latest(
    before: &RevisionLedger,
    after: &RevisionLedger,
    input: CreateFirstFileRevision,
    id: i64,
)
    requires
        before.history(input.site_id, input.file_id).len() == 0,
        after.records() == before.records().push(first_revision(input, id)),
    ensures
        after.history(input.site_id, input.file_id).len() == 1,
        after.history(input.site_id, input.file_id).last().revision_type == FileRevisionType::Create,
        after.history(input.site_id, input.file_id).last().revision_number == 1,
        after.history(input.site_id, input.file_id).last().changes == all_groups(),
{
    lemma_filter_push(before.records(), first_revision(input, id), of_file(input.site_id, input.file_id));
}

} // verus!
