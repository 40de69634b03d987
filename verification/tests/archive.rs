use binsync::archive::{
    extract_target_from_tarfile, extract_target_from_tarxz, extract_target_from_zipfile,
    find_member, find_zip_member,
};
use binsync::config::{Config, Fault};
use binsync::path::Platform;
use std::io::Write;

fn conf(target: Option<&str>) -> Config {
    let mut conf = Config::new();
    conf.target_filename_to_extract_from_archive = target.map(String::from);
    conf
}

fn tar(members: &[(&str, &[u8])]) -> Vec<u8> {
    let mut builder = tar::Builder::new(Vec::new());
    for (path, contents) in members {
        let mut header = tar::Header::new_gnu();
        header.set_size(contents.len() as u64);
        header.set_mode(0o755);
        builder.append_data(&mut header, path, *contents).unwrap();
    }
    builder.into_inner().unwrap()
}

fn gzip(bytes: &[u8]) -> Vec<u8> {
    let mut encoder = flate2::write::GzEncoder::new(Vec::new(), flate2::Compression::default());
    encoder.write_all(bytes).unwrap();
    encoder.finish().unwrap()
}

fn xz(bytes: &[u8]) -> Vec<u8> {
    let mut encoder = xz2::write::XzEncoder::new(Vec::new(), 6);
    encoder.write_all(bytes).unwrap();
    encoder.finish().unwrap()
}

fn zip(members: &[(&str, &[u8])], method: zip::CompressionMethod) -> Vec<u8> {
    let mut writer = zip::ZipWriter::new(std::io::Cursor::new(Vec::new()));
    let options = zip::write::SimpleFileOptions::default().compression_method(method);
    for (path, contents) in members {
        writer.start_file(*path, options).unwrap();
        writer.write_all(contents).unwrap();
    }
    writer.finish().unwrap().into_inner()
}

const MEMBERS: [(&str, &[u8]); 4] = [
    ("rg-13/README", b"read me"),
    ("rg-13/bin/rg", b"program"),
    ("rg-13/other/rg", b"another program"),
    ("rg-13/rg/notes", b"notes"),
];

#[test]
fn first_member_with_the_name_is_found() {
    let paths = vec![
        Some(b"rg/".to_vec()),
        Some(b"x/README".to_vec()),
        Some(b"x/rg".to_vec()),
        None,
    ];
    assert_eq!(find_member(&paths, &Some("rg".to_string()), Platform::Unix), Ok(Some(0)));
    assert_eq!(find_member(&paths, &Some("README".to_string()), Platform::Unix), Ok(Some(1)));
    assert_eq!(
        find_member(&paths, &Some("x".to_string()), Platform::Unix),
        Err(Fault::BrokenArchive)
    );
    assert_eq!(find_member(&paths, &None, Platform::Unix), Err(Fault::MissingTargetFilename));
    assert_eq!(find_member(&paths[..3].to_vec(), &Some("x".to_string()), Platform::Unix), Ok(None));
}

#[test]
fn zip_member_has_to_open() {
    let listing = Some(vec![
        ("x/a".to_string(), true),
        ("x/b".to_string(), false),
        ("x/c".to_string(), true),
    ]);
    assert_eq!(find_zip_member(&listing, &Some("a".to_string()), Platform::Unix), Ok(Some(0)));
    assert_eq!(
        find_zip_member(&listing, &Some("b".to_string()), Platform::Unix),
        Err(Fault::BrokenArchive)
    );
    assert_eq!(
        find_zip_member(&listing, &Some("c".to_string()), Platform::Unix),
        Err(Fault::BrokenArchive)
    );
    assert_eq!(find_zip_member(&listing, &None, Platform::Unix), Err(Fault::MissingTargetFilename));
    assert_eq!(
        find_zip_member(&None, &Some("a".to_string()), Platform::Unix),
        Err(Fault::BrokenArchive)
    );
    assert_eq!(find_zip_member(&Some(vec![]), &Some("a".to_string()), Platform::Unix), Ok(None));
}

#[test]
fn gzipped_tar_is_searched() {
    let archive = gzip(&tar(&MEMBERS));
    assert_eq!(
        extract_target_from_tarfile(&archive, &conf(Some("rg")), Platform::Unix),
        Ok(Some(1))
    );
    assert_eq!(
        extract_target_from_tarfile(&archive, &conf(Some("notes")), Platform::Unix),
        Ok(Some(3))
    );
    assert_eq!(extract_target_from_tarfile(&archive, &conf(Some("bin")), Platform::Unix), Ok(None));
    assert_eq!(
        extract_target_from_tarfile(&archive, &conf(None), Platform::Unix),
        Err(Fault::MissingTargetFilename)
    );
    assert_eq!(
        extract_target_from_tarfile(&gzip(&tar(&[])), &conf(Some("rg")), Platform::Unix),
        Ok(None)
    );
}

#[test]
fn xz_tar_is_searched() {
    let archive = xz(&tar(&MEMBERS));
    assert_eq!(extract_target_from_tarxz(&archive, &conf(Some("rg")), Platform::Unix), Ok(Some(1)));
    assert_eq!(
        extract_target_from_tarxz(&archive, &conf(Some("notes")), Platform::Unix),
        Ok(Some(3))
    );
    assert_eq!(extract_target_from_tarxz(&archive, &conf(Some("bin")), Platform::Unix), Ok(None));
    assert_eq!(
        extract_target_from_tarxz(&archive, &conf(None), Platform::Unix),
        Err(Fault::MissingTargetFilename)
    );
}

#[test]
fn broken_tar_is_reported_only_before_the_member() {
    let broken = Err(Fault::BrokenArchive);
    assert_eq!(extract_target_from_tarfile(b"not gzip", &conf(Some("rg")), Platform::Unix), broken);
    assert_eq!(extract_target_from_tarxz(b"not xz", &conf(Some("rg")), Platform::Unix), broken);
    let mut plain = tar(&MEMBERS);
    plain[2 * 1024] ^= 1;
    let archive = gzip(&plain);
    assert_eq!(
        extract_target_from_tarfile(&archive, &conf(Some("rg")), Platform::Unix),
        Ok(Some(1))
    );
    assert_eq!(extract_target_from_tarfile(&archive, &conf(Some("notes")), Platform::Unix), broken);
    assert_eq!(
        extract_target_from_tarxz(&xz(&plain), &conf(Some("notes")), Platform::Unix),
        broken
    );
}

#[test]
fn zip_is_searched_and_read() {
    for method in [
        zip::CompressionMethod::Stored,
        zip::CompressionMethod::Deflated,
        zip::CompressionMethod::Bzip2,
    ] {
        let archive = zip(&MEMBERS, method);
        assert_eq!(
            extract_target_from_zipfile(&archive, &conf(Some("rg")), Platform::Unix),
            Ok(Some(b"program".to_vec()))
        );
        assert_eq!(
            extract_target_from_zipfile(&archive, &conf(Some("notes")), Platform::Unix),
            Ok(Some(b"notes".to_vec()))
        );
        assert_eq!(
            extract_target_from_zipfile(&archive, &conf(Some("bin")), Platform::Unix),
            Ok(None)
        );
        assert_eq!(
            extract_target_from_zipfile(&archive, &conf(None), Platform::Unix),
            Err(Fault::MissingTargetFilename)
        );
    }
}

#[test]
fn broken_zip_is_reported() {
    let broken = Err(Fault::BrokenArchive);
    assert_eq!(
        extract_target_from_zipfile(b"not a zip", &conf(Some("rg")), Platform::Unix),
        broken
    );
    let mut archive = zip(&MEMBERS, zip::CompressionMethod::Stored);
    let at = archive.windows(7).position(|w| w == b"program").unwrap();
    archive[at] ^= 1;
    assert_eq!(extract_target_from_zipfile(&archive, &conf(Some("rg")), Platform::Unix), broken);
    assert_eq!(
        extract_target_from_zipfile(&archive, &conf(Some("README")), Platform::Unix),
        Ok(Some(b"read me".to_vec()))
    );
}

#[test]
fn member_is_told_by_the_rules_of_the_platform() {
    let target = Some("rg.exe".to_string());
    let paths = vec![Some(b"dir\\rg.exe".to_vec()), Some(b"rg.exe".to_vec())];
    assert_eq!(find_member(&paths, &target, Platform::Windows), Ok(Some(0)));
    assert_eq!(find_member(&paths, &target, Platform::Unix), Ok(Some(1)));
    let listing = Some(vec![("dir\\rg.exe".to_string(), true)]);
    assert_eq!(find_zip_member(&listing, &target, Platform::Windows), Ok(Some(0)));
    assert_eq!(find_zip_member(&listing, &target, Platform::Unix), Ok(None));
    let archive = gzip(&tar(&[("dir\\rg.exe", b"program")]));
    let conf = conf(Some("rg.exe"));
    assert_eq!(extract_target_from_tarfile(&archive, &conf, Platform::Windows), Ok(Some(0)));
    assert_eq!(extract_target_from_tarfile(&archive, &conf, Platform::Unix), Ok(None));
}

#[test]
fn path_on_windows_has_to_be_unicode() {
    let target = Some("rg".to_string());
    let paths = vec![Some(vec![0xff, 0x2f, 0x72, 0x67])];
    assert_eq!(find_member(&paths, &target, Platform::Unix), Ok(Some(0)));
    assert_eq!(find_member(&paths, &target, Platform::Windows), Err(Fault::BrokenArchive));
    let accented = vec![Some("\u{e9}/rg".as_bytes().to_vec())];
    assert_eq!(find_member(&accented, &target, Platform::Windows), Ok(Some(0)));
}

#[test]
fn failed_search_stopped_at_the_first_unreadable_entry() {
    let target = Some("rg".to_string());
    let broken = Err(Fault::BrokenArchive);
    let rg = || Some(b"rg".to_vec());
    assert_eq!(find_member(&vec![None, rg()], &target, Platform::Unix), broken);
    assert_eq!(find_member(&vec![rg(), None], &target, Platform::Unix), Ok(Some(0)));
    assert_eq!(find_member(&vec![Some(b"x".to_vec()), None], &target, Platform::Unix), broken);
}
