use std::io::Cursor;
use std::io::Read;
use std::io::Write;

use s3_backup::error::ArchiveFault;
use s3_backup::error::BackupError;
use s3_backup::orchestrator::restore_plan;
use s3_backup::reader::plan_member;
use s3_backup::reader::ArchiveReader;
use s3_backup::reader::DiskAction;
use s3_backup::tree::EntryKind;
use s3_backup::tree::RootProbe;
use s3_backup::tree::TreeEntry;
use s3_backup::tree::WalkItem;
use s3_backup::writer::zip_dir;
use s3_backup::writer::ArchiveWriter;
use s3_backup::writer::UNIX_PERMISSIONS;
use s3_backup::zipio::Compression;

fn file(path: &str, data: &[u8]) -> WalkItem {
    WalkItem::Entry(TreeEntry { path: path.to_string(), kind: EntryKind::File, data: data.to_vec() })
}

fn dir(path: &str) -> WalkItem {
    WalkItem::Entry(TreeEntry { path: path.to_string(), kind: EntryKind::Directory, data: Vec::new() })
}

fn write_file(path: &str, data: &[u8]) -> DiskAction {
    DiskAction::WriteFile { path: path.to_string(), data: data.to_vec(), mode: Some(0o100755), parents: true }
}

fn create_dir(path: &str) -> DiskAction {
    DiskAction::CreateDir { path: path.to_string(), mode: Some(0o40755) }
}

fn sample_tree() -> Vec<WalkItem> {
    vec![dir("root"), file("root/a.txt", b"hi"), dir("root/sub"), file("root/sub/b.txt", b"bye")]
}

fn names_in(bytes: &[u8]) -> Vec<String> {
    let mut archive = zip::ZipArchive::new(Cursor::new(bytes.to_vec())).unwrap();
    let mut names = Vec::new();
    for i in 0..archive.len() {
        names.push(archive.by_index(i).unwrap().name().to_string());
    }
    names
}

#[test]
fn member_with_a_plain_name_is_a_file_to_write() {
    assert_eq!(
        plan_member("out", "sub/b.txt", Some(0o100644), b"bye".to_vec()),
        Ok(DiskAction::WriteFile {
            path: "out/sub/b.txt".to_string(),
            data: b"bye".to_vec(),
            mode: Some(0o100644),
            parents: true,
        })
    );
}

#[test]
fn member_ending_in_a_separator_is_a_directory_to_create() {
    assert_eq!(
        plan_member("out", "sub/", None, Vec::new()),
        Ok(DiskAction::CreateDir { path: "out/sub/".to_string(), mode: None })
    );
}

#[test]
fn member_ending_in_a_backslash_is_a_file() {
    assert_eq!(
        plan_member("out", "odd\\", None, vec![1]),
        Ok(DiskAction::WriteFile { path: "out/odd\\".to_string(), data: vec![1], mode: None, parents: true })
    );
}

#[test]
fn member_with_an_unsafe_name_is_refused() {
    let refused = Err(BackupError::ArchiveError(ArchiveFault::UnsafeName));
    assert_eq!(plan_member("out", "../x", None, Vec::new()), refused);
    assert_eq!(plan_member("out", "/x", None, Vec::new()), refused);
    assert_eq!(plan_member("out", "a/\0", None, Vec::new()), refused);
}

#[test]
fn fixed_permissions_are_0755() {
    assert_eq!(UNIX_PERMISSIONS, 0o755);
}

#[test]
fn sample_tree_round_trips() {
    let archived = zip_dir("root", RootProbe::Directory, &sample_tree(), Compression::Deflated).unwrap();
    assert_eq!(archived.skipped, 0);
    let plan = restore_plan(archived.bytes, "fresh", None).unwrap();
    assert_eq!(
        plan,
        vec![
            write_file("fresh/a.txt", b"hi"),
            create_dir("fresh/sub/"),
            write_file("fresh/sub/b.txt", b"bye"),
        ]
    );
}

#[test]
fn sample_tree_has_no_other_members() {
    let archived = zip_dir("root", RootProbe::Directory, &sample_tree(), Compression::Deflated).unwrap();
    assert_eq!(names_in(&archived.bytes), vec!["a.txt", "sub/", "sub/b.txt"]);
    let reader = ArchiveReader::open(archived.bytes).unwrap();
    assert_eq!(reader.len(), 3);
}

#[test]
fn written_archive_is_read_by_the_zip_crate() {
    let archived = zip_dir("root", RootProbe::Directory, &sample_tree(), Compression::Deflated).unwrap();
    let mut archive = zip::ZipArchive::new(Cursor::new(archived.bytes)).unwrap();
    {
        let mut member = archive.by_name("sub/b.txt").unwrap();
        let mut data = Vec::new();
        member.read_to_end(&mut data).unwrap();
        assert_eq!(data, b"bye");
        assert_eq!(member.unix_mode(), Some(0o100755));
        assert_eq!(member.compression(), zip::CompressionMethod::Deflated);
        let stamp = member.last_modified();
        assert_eq!((stamp.year(), stamp.month(), stamp.day()), (1980, 1, 1));
        assert_eq!((stamp.hour(), stamp.minute(), stamp.second()), (0, 0, 0));
    }
    let member = archive.by_name("sub/").unwrap();
    assert!(member.is_dir());
    assert_eq!(member.unix_mode(), Some(0o40755));
    assert_eq!(member.size(), 0);
}

#[test]
fn stored_method_round_trips_too() {
    let archived = zip_dir("root", RootProbe::Directory, &sample_tree(), Compression::Stored).unwrap();
    {
        let mut archive = zip::ZipArchive::new(Cursor::new(archived.bytes.clone())).unwrap();
        let member = archive.by_name("a.txt").unwrap();
        assert_eq!(member.compression(), zip::CompressionMethod::Stored);
    }
    let plan = restore_plan(archived.bytes, "out", None).unwrap();
    assert_eq!(
        plan,
        vec![write_file("out/a.txt", b"hi"), create_dir("out/sub/"), write_file("out/sub/b.txt", b"bye")]
    );
}

#[test]
fn same_tree_gives_the_same_bytes() {
    let one = zip_dir("root", RootProbe::Directory, &sample_tree(), Compression::Deflated).unwrap();
    let two = zip_dir("root", RootProbe::Directory, &sample_tree(), Compression::Deflated).unwrap();
    assert_eq!(one, two);
}

#[test]
fn root_only_tree_gives_an_empty_archive() {
    let archived = zip_dir("root", RootProbe::Directory, &vec![dir("root")], Compression::Deflated).unwrap();
    assert_eq!(names_in(&archived.bytes), Vec::<String>::new());
    assert_eq!(restore_plan(archived.bytes, "out", None), Ok(Vec::new()));
}

#[test]
fn root_with_files_has_no_directory_record() {
    let items = vec![dir("root/"), file("root/x", b"1"), file("root/y", b"22"), file("root/z", b"")];
    let archived = zip_dir("root/", RootProbe::Directory, &items, Compression::Deflated).unwrap();
    let names = names_in(&archived.bytes);
    assert_eq!(names, vec!["x", "y", "z"]);
    assert!(names.iter().all(|name| !name.ends_with('/')));
}

#[test]
fn empty_traversal_gives_an_empty_archive() {
    let archived = zip_dir("root", RootProbe::Directory, &Vec::new(), Compression::Deflated).unwrap();
    assert_eq!(archived.skipped, 0);
    assert_eq!(ArchiveReader::open(archived.bytes).unwrap().len(), 0);
}

#[test]
fn skipped_steps_are_left_out_and_counted() {
    let items = vec![
        dir("root"),
        WalkItem::Skipped("permission denied".to_string()),
        file("root/a.txt", b"hi"),
        WalkItem::Skipped("vanished".to_string()),
    ];
    let archived = zip_dir("root", RootProbe::Directory, &items, Compression::Deflated).unwrap();
    assert_eq!(archived.skipped, 2);
    assert_eq!(names_in(&archived.bytes), vec!["a.txt"]);
}

#[test]
fn file_source_is_not_a_directory() {
    let r = zip_dir("root", RootProbe::NotADirectory, &sample_tree(), Compression::Deflated);
    assert_eq!(r, Err(BackupError::NotADirectory));
}

#[test]
fn missing_source_is_not_a_directory() {
    let r = zip_dir("root", RootProbe::Missing, &Vec::new(), Compression::Deflated);
    assert_eq!(r, Err(BackupError::NotADirectory));
}

#[test]
fn entry_outside_the_root_is_a_path_error() {
    let items = vec![dir("root"), file("root/a.txt", b"hi"), file("elsewhere/b.txt", b"bye")];
    let r = zip_dir("root", RootProbe::Directory, &items, Compression::Deflated);
    assert_eq!(r, Err(BackupError::PathError));
}

#[test]
fn writer_refuses_a_source_that_is_not_a_directory() {
    assert!(matches!(
        ArchiveWriter::new("root", RootProbe::NotADirectory, Compression::Deflated),
        Err(BackupError::NotADirectory)
    ));
    assert!(matches!(
        ArchiveWriter::new("root", RootProbe::Missing, Compression::Deflated),
        Err(BackupError::NotADirectory)
    ));
}

#[test]
fn writer_takes_steps_one_at_a_time() {
    let mut writer = match ArchiveWriter::new("root", RootProbe::Directory, Compression::Deflated) {
        Ok(writer) => writer,
        Err(e) => panic!("{:?}", e),
    };
    assert_eq!(writer.add(&dir("root")), Ok(()));
    assert_eq!(writer.add(&file("root/a.txt", b"hi")), Ok(()));
    assert_eq!(writer.add(&file("other/a.txt", b"hi")), Err(BackupError::PathError));
    assert_eq!(writer.add(&WalkItem::Skipped("unreadable".to_string())), Ok(()));
    assert_eq!(writer.add(&dir("root/sub")), Ok(()));
    let bytes = writer.finish().unwrap();
    assert_eq!(names_in(&bytes), vec!["a.txt", "sub/"]);
}

#[test]
fn large_file_content_survives() {
    let mut data = Vec::new();
    for i in 0..200_000u32 {
        data.push((i % 251) as u8);
    }
    let items = vec![file("root/big.bin", &data)];
    let archived = zip_dir("root", RootProbe::Directory, &items, Compression::Deflated).unwrap();
    assert!(archived.bytes.len() < data.len());
    let plan = restore_plan(archived.bytes, "out", Some("big.bin")).unwrap();
    assert_eq!(plan, vec![DiskAction::WriteFile { path: "out/big.bin".to_string(), data, mode: None, parents: false }]);
}

#[test]
fn single_member_has_the_bytes_of_its_file() {
    let archived = zip_dir("root", RootProbe::Directory, &sample_tree(), Compression::Deflated).unwrap();
    let plan = restore_plan(archived.bytes, "out", Some("sub/b.txt")).unwrap();
    assert_eq!(
        plan,
        vec![DiskAction::WriteFile { path: "out/sub/b.txt".to_string(), data: b"bye".to_vec(), mode: None, parents: false }]
    );
}

#[test]
fn missing_member_is_reported_and_nothing_is_planned() {
    let archived = zip_dir("root", RootProbe::Directory, &sample_tree(), Compression::Deflated).unwrap();
    assert_eq!(restore_plan(archived.bytes, "out", Some("nope.txt")), Err(BackupError::MemberNotFound));
}

#[test]
fn member_lookup_is_by_exact_name() {
    let archived = zip_dir("root", RootProbe::Directory, &sample_tree(), Compression::Deflated).unwrap();
    assert_eq!(
        restore_plan(archived.bytes.clone(), "out", Some("sub")),
        Err(BackupError::MemberNotFound)
    );
    assert_eq!(
        restore_plan(archived.bytes, "out", Some("sub/")),
        Ok(vec![DiskAction::WriteFile { path: "out/sub/".to_string(), data: Vec::new(), mode: None, parents: false }])
    );
}

#[test]
fn reader_extracts_one_member_to_the_given_path() {
    let archived = zip_dir("root", RootProbe::Directory, &sample_tree(), Compression::Deflated).unwrap();
    let mut reader = ArchiveReader::open(archived.bytes).unwrap();
    assert_eq!(
        reader.extract_one("a.txt", "/tmp/copy.txt"),
        Ok(DiskAction::WriteFile { path: "/tmp/copy.txt".to_string(), data: b"hi".to_vec(), mode: None, parents: false })
    );
    assert_eq!(reader.extract_one("b.txt", "/tmp/copy.txt"), Err(BackupError::MemberNotFound));
    assert_eq!(reader.len(), 3);
}

#[test]
fn reader_plans_all_members_in_order() {
    let archived = zip_dir("root", RootProbe::Directory, &sample_tree(), Compression::Deflated).unwrap();
    let mut reader = ArchiveReader::open(archived.bytes).unwrap();
    let plan = reader.extract_all("/dest/").unwrap();
    assert_eq!(
        plan,
        vec![write_file("/dest/a.txt", b"hi"), create_dir("/dest/sub/"), write_file("/dest/sub/b.txt", b"bye")]
    );
}

#[test]
fn bytes_that_are_no_archive_are_refused() {
    assert!(matches!(
        ArchiveReader::open(b"this is not a zip file, not at all".to_vec()),
        Err(BackupError::ArchiveError(ArchiveFault::Invalid))
    ));
    assert_eq!(
        restore_plan(Vec::new(), "out", None),
        Err(BackupError::ArchiveError(ArchiveFault::Invalid))
    );
    assert_eq!(
        restore_plan(vec![0u8; 64], "out", Some("a")),
        Err(BackupError::ArchiveError(ArchiveFault::Invalid))
    );
}

fn foreign_archive(names: &[(&str, &[u8])]) -> Vec<u8> {
    let mut writer = zip::ZipWriter::new(Cursor::new(Vec::new()));
    let options = zip::write::FileOptions::default().compression_method(zip::CompressionMethod::Stored);
    for (name, data) in names {
        writer.start_file(*name, options).unwrap();
        writer.write_all(data).unwrap();
    }
    writer.finish().unwrap().into_inner()
}

#[test]
fn member_that_climbs_out_is_refused() {
    let bytes = foreign_archive(&[("ok.txt", b"fine"), ("../evil.txt", b"bad")]);
    assert_eq!(
        restore_plan(bytes, "out", None),
        Err(BackupError::ArchiveError(ArchiveFault::UnsafeName))
    );
}

#[test]
fn absolute_member_is_refused() {
    let bytes = foreign_archive(&[("/etc/evil", b"bad")]);
    assert_eq!(
        restore_plan(bytes, "out", None),
        Err(BackupError::ArchiveError(ArchiveFault::UnsafeName))
    );
}

#[test]
fn foreign_archive_keeps_its_default_mode() {
    let bytes = foreign_archive(&[("plain.txt", b"data")]);
    assert_eq!(
        restore_plan(bytes, "out", None),
        Ok(vec![DiskAction::WriteFile {
            path: "out/plain.txt".to_string(),
            data: b"data".to_vec(),
            mode: Some(0o100644),
            parents: true,
        }])
    );
}

#[test]
fn last_member_of_a_name_wins() {
    let bytes = foreign_archive(&[("twice", b"first"), ("other", b"x"), ("twice", b"second")]);
    assert_eq!(
        restore_plan(bytes, "out", Some("twice")),
        Ok(vec![DiskAction::WriteFile { path: "out/twice".to_string(), data: b"second".to_vec(), mode: None, parents: false }])
    );
}

#[test]
fn damaged_member_is_an_archive_error() {
    let mut bytes = foreign_archive(&[("a.txt", b"hello world")]);
    let at = bytes.windows(11).position(|w| w == b"hello world").unwrap();
    bytes[at] = b'j';
    assert_eq!(restore_plan(bytes.clone(), "out", None), Err(BackupError::ArchiveError(ArchiveFault::Io)));
    assert_eq!(
        restore_plan(bytes, "out", Some("a.txt")),
        Err(BackupError::ArchiveError(ArchiveFault::Io))
    );
}

#[test]
fn first_member_without_an_action_decides_the_failure() {
    let mut bytes = foreign_archive(&[("a.txt", b"hello world"), ("../evil", b"bad")]);
    let at = bytes.windows(11).position(|w| w == b"hello world").unwrap();
    bytes[at] = b'j';
    assert_eq!(restore_plan(bytes, "out", None), Err(BackupError::ArchiveError(ArchiveFault::Io)));
    let mut bytes = foreign_archive(&[("../evil", b"bad"), ("a.txt", b"hello world")]);
    let at = bytes.windows(11).position(|w| w == b"hello world").unwrap();
    bytes[at] = b'j';
    assert_eq!(
        restore_plan(bytes, "out", None),
        Err(BackupError::ArchiveError(ArchiveFault::UnsafeName))
    );
}

#[test]
fn first_step_that_stops_the_packing_decides_the_failure() {
    let items = vec![file("root/a", b"1"), file("elsewhere", b"2"), file("root/b", b"3")];
    assert_eq!(
        zip_dir("root", RootProbe::Directory, &items, Compression::Deflated),
        Err(BackupError::PathError)
    );
    assert_eq!(
        zip_dir("root", RootProbe::NotADirectory, &items, Compression::Deflated),
        Err(BackupError::NotADirectory)
    );
}

#[test]
fn member_packed_with_an_unknown_method_is_unsupported() {
    let mut bytes = foreign_archive(&[("a.txt", b"hello world")]);
    let at = bytes.windows(4).position(|w| w == b"PK\x01\x02").unwrap();
    bytes[at + 10] = 14;
    bytes[at + 11] = 0;
    assert_eq!(
        restore_plan(bytes.clone(), "out", None),
        Err(BackupError::ArchiveError(ArchiveFault::Unsupported))
    );
    assert_eq!(
        restore_plan(bytes, "out", Some("a.txt")),
        Err(BackupError::ArchiveError(ArchiveFault::Unsupported))
    );
}

#[test]
fn file_named_like_the_root_is_written_under_the_empty_name() {
    let items = vec![file("root", b"odd")];
    let archived = zip_dir("root", RootProbe::Directory, &items, Compression::Stored).unwrap();
    assert_eq!(names_in(&archived.bytes), vec![""]);
}

#[test]
fn directory_ending_in_a_backslash_comes_back_as_an_empty_file() {
    let items = vec![dir("root"), dir("root/odd\\")];
    let archived = zip_dir("root", RootProbe::Directory, &items, Compression::Deflated).unwrap();
    assert_eq!(names_in(&archived.bytes), vec!["odd\\"]);
    assert_eq!(
        restore_plan(archived.bytes, "out", None),
        Ok(vec![DiskAction::WriteFile {
            path: "out/odd\\".to_string(),
            data: Vec::new(),
            mode: Some(0o40755),
            parents: true,
        }])
    );
}

#[test]
fn entry_that_climbs_is_packed_but_not_unpacked() {
    let items = vec![dir("root"), file("root/../x", b"out of place")];
    let archived = zip_dir("root", RootProbe::Directory, &items, Compression::Deflated).unwrap();
    assert_eq!(names_in(&archived.bytes), vec!["../x"]);
    assert_eq!(
        restore_plan(archived.bytes, "out", None),
        Err(BackupError::ArchiveError(ArchiveFault::UnsafeName))
    );
}

#[test]
fn non_ascii_names_round_trip() {
    let items = vec![dir("r"), dir("r/données"), file("r/données/été.txt", "ça va".as_bytes())];
    let archived = zip_dir("r", RootProbe::Directory, &items, Compression::Deflated).unwrap();
    let plan = restore_plan(archived.bytes, "out", None).unwrap();
    assert_eq!(
        plan,
        vec![create_dir("out/données/"), write_file("out/données/été.txt", "ça va".as_bytes())]
    );
}
