use deepwell_revisions::changes::{validate_file, CreateFileRevisionBody};
use deepwell_revisions::ledger::{OutdateKind, PageOutdate, RevisionLedger};
use deepwell_revisions::revision::{
    Error, FetchDirection, FieldGroup, FileBlob, FileRevisionType, ProvidedValue,
};
use deepwell_revisions::service::{
    CreateFileRevision, CreateFileRevisionOutput, CreateFirstFileRevision,
    CreateResurrectionFileRevision, CreateTombstoneFileRevision, FileRevisionService,
    GetFileRevision, GetFileRevisionRange, UpdateFileRevision,
};

fn first_input(name: &str, mime: &str) -> CreateFirstFileRevision {
    CreateFirstFileRevision {
        site_id: 1,
        page_id: 10,
        file_id: 5,
        user_id: 7,
        name: name.to_string(),
        s3_hash: vec![0xab; 64],
        size_hint: 1024,
        mime_hint: mime.to_string(),
        licensing: String::from("{}"),
        comments: String::from("upload"),
    }
}

fn unset_body() -> CreateFileRevisionBody {
    CreateFileRevisionBody {
        page_id: ProvidedValue::Unset,
        name: ProvidedValue::Unset,
        blob: ProvidedValue::Unset,
        licensing: ProvidedValue::Unset,
    }
}

fn update_input(body: CreateFileRevisionBody) -> CreateFileRevision {
    CreateFileRevision {
        site_id: 1,
        page_id: 10,
        file_id: 5,
        user_id: 7,
        comments: String::from("edit"),
        body,
    }
}

fn rename(ledger: &mut RevisionLedger, name: &str) -> Result<Option<CreateFileRevisionOutput>, Error> {
    let previous = FileRevisionService::get_latest(ledger, 1, 5).unwrap();
    let mut body = unset_body();
    body.name = ProvidedValue::Provided(name.to_string());
    FileRevisionService::create(ledger, update_input(body), &previous)
}

fn ledger_with_file() -> RevisionLedger {
    let mut ledger = RevisionLedger::new();
    FileRevisionService::create_first(&mut ledger, first_input("a.png", "image/png"));
    ledger
}

/// Create, rename, rename again, delete, undelete elsewhere.
fn ledger_with_history() -> RevisionLedger {
    let mut ledger = ledger_with_file();
    rename(&mut ledger, "b.png").unwrap().unwrap();
    assert_eq!(rename(&mut ledger, "b.png"), Ok(None));
    let previous = FileRevisionService::get_latest(&ledger, 1, 5).unwrap();
    FileRevisionService::create_tombstone(
        &mut ledger,
        CreateTombstoneFileRevision {
            site_id: 1,
            page_id: 10,
            file_id: 5,
            user_id: 7,
            comments: String::from("delete"),
        },
        &previous,
    );
    let previous = FileRevisionService::get_latest(&ledger, 1, 5).unwrap();
    FileRevisionService::create_resurrection(
        &mut ledger,
        CreateResurrectionFileRevision {
            site_id: 1,
            page_id: 10,
            file_id: 5,
            user_id: 7,
            new_page_id: 11,
            new_name: String::from("c.png"),
            comments: String::from("restore"),
        },
        &previous,
    );
    ledger
}

fn all_groups() -> Vec<FieldGroup> {
    vec![FieldGroup::Page, FieldGroup::Name, FieldGroup::Blob, FieldGroup::Licensing]
}

#[test]
fn create_first_gives_revision_one() {
    let mut ledger = RevisionLedger::new();
    let output =
        FileRevisionService::create_first(&mut ledger, first_input("a.png", "image/png"));
    assert_eq!(output.file_id, 5);
    assert_eq!(output.file_revision_id, 1);
    let latest = FileRevisionService::get_latest(&ledger, 1, 5).unwrap();
    assert_eq!(latest.revision_number, 1);
    assert_eq!(latest.revision_type, FileRevisionType::Create);
    assert_eq!(latest.changes, all_groups());
    assert!(latest.hidden.is_empty());
    assert_eq!(latest.name, "a.png");
    assert_eq!(latest.mime_hint, "image/png");
    assert_eq!(
        ledger.take_outdates(),
        vec![PageOutdate { kind: OutdateKind::Displace, site_id: 1, page_id: 10 }]
    );
    assert!(ledger.take_outdates().is_empty());
}

#[test]
fn update_name_gives_revision_two() {
    let mut ledger = ledger_with_file();
    ledger.take_outdates();
    let output = rename(&mut ledger, "b.png").unwrap().unwrap();
    assert_eq!(output.file_revision_number, 2);
    assert_eq!(output.file_revision_id, 2);
    let latest = FileRevisionService::get_latest(&ledger, 1, 5).unwrap();
    assert_eq!(latest.revision_type, FileRevisionType::Update);
    assert_eq!(latest.changes, vec![FieldGroup::Name]);
    assert_eq!(latest.name, "b.png");
    assert_eq!(latest.mime_hint, "image/png");
    assert_eq!(latest.s3_hash, vec![0xab; 64]);
    assert_eq!(
        ledger.take_outdates(),
        vec![PageOutdate { kind: OutdateKind::Edit, site_id: 1, page_id: 10 }]
    );
}

#[test]
fn repeated_update_is_a_no_op() {
    let mut ledger = ledger_with_file();
    rename(&mut ledger, "b.png").unwrap().unwrap();
    ledger.take_outdates();
    assert_eq!(rename(&mut ledger, "b.png"), Ok(None));
    assert_eq!(FileRevisionService::count(&ledger, 1, 5), Ok(2));
    assert!(ledger.take_outdates().is_empty());
}

#[test]
fn update_with_identical_values_is_a_no_op() {
    let mut ledger = ledger_with_file();
    ledger.take_outdates();
    let previous = FileRevisionService::get_latest(&ledger, 1, 5).unwrap();
    let body = CreateFileRevisionBody {
        page_id: ProvidedValue::Provided(10),
        name: ProvidedValue::Provided(String::from("a.png")),
        blob: ProvidedValue::Provided(FileBlob {
            s3_hash: vec![0xab; 64],
            size_hint: 1024,
            mime_hint: String::from("image/png"),
        }),
        licensing: ProvidedValue::Provided(String::from("{}")),
    };
    let result = FileRevisionService::create(&mut ledger, update_input(body), &previous);
    assert_eq!(result, Ok(None));
    assert_eq!(FileRevisionService::count(&ledger, 1, 5), Ok(1));
    assert!(ledger.take_outdates().is_empty());
}

#[test]
fn blob_changes_as_a_unit() {
    let mut ledger = ledger_with_file();
    let previous = FileRevisionService::get_latest(&ledger, 1, 5).unwrap();
    let mut body = unset_body();
    body.blob = ProvidedValue::Provided(FileBlob {
        s3_hash: vec![0xab; 64],
        size_hint: 2048,
        mime_hint: String::from("image/png"),
    });
    body.licensing = ProvidedValue::Provided(String::from("{\"cc\":true}"));
    body.page_id = ProvidedValue::Provided(12);
    let output = FileRevisionService::create(&mut ledger, update_input(body), &previous)
        .unwrap()
        .unwrap();
    assert_eq!(output.file_revision_number, 2);
    let latest = FileRevisionService::get_latest(&ledger, 1, 5).unwrap();
    assert_eq!(
        latest.changes,
        vec![FieldGroup::Page, FieldGroup::Blob, FieldGroup::Licensing]
    );
    assert_eq!(latest.size_hint, 2048);
    assert_eq!(latest.page_id, 12);
    let outdates = ledger.take_outdates();
    assert_eq!(
        outdates[1],
        PageOutdate { kind: OutdateKind::Edit, site_id: 1, page_id: 12 }
    );
}

#[test]
fn delete_gives_revision_three() {
    let mut ledger = ledger_with_file();
    rename(&mut ledger, "b.png").unwrap().unwrap();
    let previous = FileRevisionService::get_latest(&ledger, 1, 5).unwrap();
    let output = FileRevisionService::create_tombstone(
        &mut ledger,
        CreateTombstoneFileRevision {
            site_id: 1,
            page_id: 10,
            file_id: 5,
            user_id: 7,
            comments: String::from("delete"),
        },
        &previous,
    );
    assert_eq!(output.file_revision_number, 3);
    let latest = FileRevisionService::get_latest(&ledger, 1, 5).unwrap();
    assert_eq!(latest.revision_type, FileRevisionType::Delete);
    assert!(latest.changes.is_empty());
    assert_eq!(latest.name, "b.png");
    assert_eq!(latest.s3_hash, previous.s3_hash);
}

#[test]
fn undelete_gives_revision_four() {
    let mut ledger = ledger_with_history();
    let latest = FileRevisionService::get_latest(&ledger, 1, 5).unwrap();
    assert_eq!(latest.revision_number, 4);
    assert_eq!(latest.revision_type, FileRevisionType::Undelete);
    assert_eq!(latest.changes, vec![FieldGroup::Page, FieldGroup::Name]);
    assert_eq!(latest.page_id, 11);
    assert_eq!(latest.name, "c.png");
    assert_eq!(latest.mime_hint, "image/png");
    assert_eq!(latest.size_hint, 1024);
    let outdates = ledger.take_outdates();
    assert_eq!(
        outdates.last(),
        Some(&PageOutdate { kind: OutdateKind::Edit, site_id: 1, page_id: 11 })
    );
    assert_eq!(outdates.len(), 4);
}

#[test]
fn redact_past_revision_but_not_latest() {
    let mut ledger = ledger_with_history();
    let second = FileRevisionService::get(
        &ledger,
        GetFileRevision { site_id: 1, file_id: 5, revision_number: 2 },
    )
    .unwrap();
    let redacted = FileRevisionService::update(
        &mut ledger,
        UpdateFileRevision {
            site_id: 1,
            file_id: 5,
            revision_id: second.revision_id,
            hidden: vec![FieldGroup::Name],
        },
    )
    .unwrap();
    assert_eq!(redacted.hidden, vec![FieldGroup::Name]);
    assert_eq!(redacted.name, second.name);
    assert_eq!(redacted.revision_number, 2);
    let again = FileRevisionService::get(
        &ledger,
        GetFileRevision { site_id: 1, file_id: 5, revision_number: 2 },
    )
    .unwrap();
    assert_eq!(again.hidden, vec![FieldGroup::Name]);

    let fourth = FileRevisionService::get_latest(&ledger, 1, 5).unwrap();
    let refused = FileRevisionService::update(
        &mut ledger,
        UpdateFileRevision {
            site_id: 1,
            file_id: 5,
            revision_id: fourth.revision_id,
            hidden: vec![FieldGroup::Blob],
        },
    );
    assert_eq!(refused.unwrap_err(), Error::CannotHideLatestRevision);
    let latest = FileRevisionService::get_latest(&ledger, 1, 5).unwrap();
    assert!(latest.hidden.is_empty());
}

#[test]
fn redact_unknown_revision_is_not_found() {
    let mut ledger = ledger_with_history();
    let missing = FileRevisionService::update(
        &mut ledger,
        UpdateFileRevision { site_id: 1, file_id: 5, revision_id: 99, hidden: vec![] },
    );
    assert_eq!(missing.unwrap_err(), Error::FileRevisionNotFound);
    let no_file = FileRevisionService::update(
        &mut ledger,
        UpdateFileRevision { site_id: 1, file_id: 6, revision_id: 1, hidden: vec![] },
    );
    assert_eq!(no_file.unwrap_err(), Error::FileRevisionNotFound);
}

#[test]
fn revision_of_another_file_cannot_be_redacted_through_this_one() {
    let mut ledger = ledger_with_history();
    let mut other = first_input("z.png", "image/png");
    other.file_id = 6;
    FileRevisionService::create_first(&mut ledger, other);
    let result = FileRevisionService::update(
        &mut ledger,
        UpdateFileRevision { site_id: 1, file_id: 6, revision_id: 2, hidden: vec![] },
    );
    assert_eq!(result.unwrap_err(), Error::FileRevisionNotFound);
}

#[test]
fn full_range_scan_is_gapless() {
    let ledger = ledger_with_history();
    let all = FileRevisionService::get_range(
        &ledger,
        GetFileRevisionRange {
            site_id: 1,
            file_id: 5,
            revision_number: -1,
            revision_direction: FetchDirection::Before,
            limit: 100,
        },
    );
    let numbers: Vec<i32> = all.iter().map(|r| r.revision_number).collect();
    assert_eq!(numbers, vec![1, 2, 3, 4]);
}

#[test]
fn range_scan_directions_and_limit() {
    let mut ledger = ledger_with_history();
    let mut other = first_input("z.png", "image/png");
    other.file_id = 6;
    FileRevisionService::create_first(&mut ledger, other);
    let scan = |number: i32, direction: FetchDirection, limit: u64| -> Vec<i32> {
        FileRevisionService::get_range(
            &ledger,
            GetFileRevisionRange {
                site_id: 1,
                file_id: 5,
                revision_number: number,
                revision_direction: direction,
                limit,
            },
        )
        .iter()
        .map(|r| r.revision_number)
        .collect()
    };
    assert_eq!(scan(3, FetchDirection::After, 10), vec![3, 4]);
    assert_eq!(scan(2, FetchDirection::Before, 10), vec![1, 2]);
    assert_eq!(scan(-1, FetchDirection::Before, 2), vec![1, 2]);
    assert_eq!(scan(-1, FetchDirection::After, 10), Vec::<i32>::new());
    assert_eq!(scan(1, FetchDirection::After, 0), Vec::<i32>::new());
}

#[test]
fn lookups_of_missing_files_and_revisions() {
    let ledger = ledger_with_history();
    assert_eq!(FileRevisionService::count(&ledger, 1, 5), Ok(4));
    assert_eq!(FileRevisionService::count(&ledger, 1, 6), Err(Error::FileNotFound));
    assert_eq!(FileRevisionService::count(&ledger, 2, 5), Err(Error::FileNotFound));
    assert_eq!(
        FileRevisionService::get_latest(&ledger, 1, 6).unwrap_err(),
        Error::FileRevisionNotFound
    );
    let get = |n: i32| GetFileRevision { site_id: 1, file_id: 5, revision_number: n };
    assert!(FileRevisionService::get_optional(&ledger, get(0)).is_none());
    assert!(FileRevisionService::get_optional(&ledger, get(5)).is_none());
    assert_eq!(
        FileRevisionService::get(&ledger, get(-1)).unwrap_err(),
        Error::FileRevisionNotFound
    );
    let third = FileRevisionService::get_optional(&ledger, get(3)).unwrap();
    assert_eq!(third.revision_type, FileRevisionType::Delete);
    assert_eq!(third.revision_id, 3);
}

#[test]
fn invalid_updates_are_refused_before_writing() {
    let mut ledger = ledger_with_file();
    ledger.take_outdates();
    assert_eq!(rename(&mut ledger, ""), Err(Error::FileNameEmpty));
    assert_eq!(rename(&mut ledger, &"x".repeat(256)), Err(Error::FileNameTooLong));
    assert_eq!(rename(&mut ledger, &"x".repeat(255)).unwrap().unwrap().file_revision_number, 2);

    let previous = FileRevisionService::get_latest(&ledger, 1, 5).unwrap();
    let mut body = unset_body();
    body.blob = ProvidedValue::Provided(FileBlob {
        s3_hash: vec![1, 2, 3],
        size_hint: 3,
        mime_hint: String::new(),
    });
    assert_eq!(
        FileRevisionService::create(&mut ledger, update_input(body), &previous),
        Err(Error::FileMimeEmpty)
    );
    assert_eq!(FileRevisionService::count(&ledger, 1, 5), Ok(2));
    assert_eq!(ledger.take_outdates().len(), 1);
}

#[test]
fn name_length_counts_bytes() {
    let mime = String::from("image/png");
    // 128 two-byte characters: 256 bytes.
    assert_eq!(validate_file(&"é".repeat(128), &mime), Err(Error::FileNameTooLong));
    assert_eq!(validate_file(&"é".repeat(127), &mime), Ok(()));
    assert_eq!(validate_file(&String::from("a"), &String::new()), Err(Error::FileMimeEmpty));
}

#[test]
fn field_group_tags() {
    let tags: Vec<&str> = all_groups().iter().map(|g| g.as_str()).collect();
    assert_eq!(tags, vec!["page", "name", "blob", "licensing"]);
}
