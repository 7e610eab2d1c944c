use rvos::common::oct2int;
use rvos::tar::{strcpy, FileSystem};
use rvos::tarfile::tar_file;

/// Write `value` as `width - 1` zero-padded octal digits plus a NUL, the
/// way `tar` fills its numeric header fields.
fn octal_field(field: &mut [u8], width: usize, mut value: usize) {
    field[width - 1] = 0;
    for i in 0..width - 1 {
        field[width - 2 - i] = b'0' + ((value % 8) as u8);
        value /= 8;
    }
}

/// A ustar archive of the given (name, data) entries followed by the
/// two-zero-block terminator, as a standard `tar` lays it out.
fn make_tar(entries: &[(&[u8], &[u8])]) -> Vec<u8> {
    let mut out = Vec::new();
    for (name, data) in entries {
        let mut header = [0u8; 512];
        header[..name.len()].copy_from_slice(name);
        octal_field(&mut header[100..108], 8, 0o644); // mode
        octal_field(&mut header[108..116], 8, 0o1750); // uid
        octal_field(&mut header[116..124], 8, 0o1750); // gid
        octal_field(&mut header[124..136], 12, data.len()); // size
        octal_field(&mut header[136..148], 12, 0o14567654321); // mtime
        header[156] = b'0'; // typeflag: regular file
        header[257..263].copy_from_slice(b"ustar\0");
        header[263..265].copy_from_slice(b"00"); // version
        // checksum over the header with the checksum field as spaces
        header[148..156].copy_from_slice(b"        ");
        let sum: usize = header.iter().map(|b| *b as usize).sum();
        octal_field(&mut header[148..155], 7, sum);
        header[155] = b' ';
        out.extend_from_slice(&header);
        out.extend_from_slice(data);
        let pad = (512 - data.len() % 512) % 512;
        out.extend(std::iter::repeat(0u8).take(pad));
    }
    out.extend(std::iter::repeat(0u8).take(1024));
    out
}

#[test]
fn test_oct2int() {
    let src = b"00000000007 ";
    assert_eq!(oct2int(src), 7);
}

#[test]
fn test_double() {
    let buf = make_tar(&[(b"./hello.txt", b"Hello!\n"), (b"./meow.txt", b"Meow!\n")]);
    let files = tar_file(&buf).expect("should parse");
    assert_eq!(files.len(), 2, "Should have two files");
    let file1 = &files[0];
    assert_eq!(file1.header.name.as_slice(), b"./hello.txt");
    assert_eq!(file1.data.as_slice(), b"Hello!\n");
    let file2 = &files[1];
    assert_eq!(file2.header.name.as_slice(), b"./meow.txt");
    assert_eq!(file2.data.as_slice(), b"Meow!\n");
}

#[test]
fn test_single() {
    let buf = make_tar(&[(b"./hello.txt", b"Hello!\n")]);
    let files = tar_file(&buf).expect("Should parse!");
    assert_eq!(files.len(), 1, "Should be one single file");
    let file = &files[0];
    assert_eq!(file.header.name.as_slice(), b"./hello.txt");
    assert_eq!(file.data.as_slice(), b"Hello!\n");
}

#[test]
fn oct2int_empty_is_zero() {
    assert_eq!(oct2int(b""), 0);
}

#[test]
fn oct2int_stops_at_first_non_octal_byte() {
    assert_eq!(oct2int(b"78"), 7);
    assert_eq!(oct2int(b"128"), 10);
    assert_eq!(oct2int(b"x17"), 0);
}

#[test]
fn tar_file_size_recorded() {
    let buf = make_tar(&[(b"./hello.txt", b"Hello!\n")]);
    let files = tar_file(&buf).unwrap();
    assert_eq!(files[0].header.file_size, 7);
}

#[test]
fn tar_empty_archive_has_no_files() {
    let buf = make_tar(&[]);
    let files = tar_file(&buf).unwrap();
    assert_eq!(files.len(), 0);
}

#[test]
fn tar_bad_magic_is_an_error() {
    let mut buf = make_tar(&[(b"./hello.txt", b"Hello!\n")]);
    buf[257] = b'X';
    assert!(tar_file(&buf).is_err());
}

#[test]
fn tar_missing_terminator_is_an_error() {
    let buf = make_tar(&[(b"./hello.txt", b"Hello!\n")]);
    assert!(tar_file(&buf[..buf.len() - 1024]).is_err());
}

#[test]
fn tar_empty_name_is_an_error() {
    let buf = make_tar(&[(b"", b"Hello!\n")]);
    assert!(tar_file(&buf).is_err());
}

#[test]
fn filesystem_catalogs_names_and_data() {
    let buf = make_tar(&[(b"./hello.txt", b"Hello!\n"), (b"./meow.txt", b"Meow!\n")]);
    let fs = FileSystem::init(&buf).expect("should build");
    assert_eq!(fs.files.len(), 2);
    assert_eq!(fs.files[0].name(), "./hello.txt");
    assert_eq!(fs.files[0].size(), 7);
    assert_eq!(fs.files[1].name(), "./meow.txt");
    assert_eq!(fs.files[1].data.as_slice(), b"Meow!\n");
    assert!(fs.files[0].in_use);
}

#[test]
fn filesystem_reports_parse_failure() {
    let garbage = vec![1u8; 700];
    assert!(FileSystem::init(&garbage).is_err());
}

#[test]
fn strcpy_stops_at_nul() {
    assert_eq!(strcpy(b"abc\0def"), b"abc".to_vec());
    assert_eq!(strcpy(b"abc"), b"abc".to_vec());
    assert_eq!(strcpy(b"\0abc"), Vec::<u8>::new());
}
