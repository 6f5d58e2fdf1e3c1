use caustic::digest::StreamDigest;
use caustic::download::{check_checksum, parse_checksum, Error as DownloadError, ImageDownload};
use caustic::oci::{extract_created, extract_version, find_layer_by_suffix, Error, ImageManifest, LayerDescriptor};
use caustic::verify::{check_sum, parse_sums_line, sums_lines, to_hex_lower, verify_sha256sums, SumsFile};
use sha2::{Digest, Sha256};

fn sha256_hex(bytes: &[u8]) -> String {
    to_hex_lower(&Sha256::digest(bytes))
}

/// The listing and files of a staging directory, held in memory.
struct Staging {
    sums: Option<String>,
    files: Vec<(String, Vec<u8>)>,
}

impl Staging {
    fn new() -> Self {
        Staging { sums: None, files: Vec::new() }
    }

    fn write_file(&mut self, name: &str, contents: &[u8]) {
        self.files.push((name.to_string(), contents.to_vec()));
    }

    fn write_sums(&mut self, entries: &[(&str, &[u8])]) {
        let mut content = String::new();
        for &(name, data) in entries {
            self.write_file(name, data);
            content.push_str(&format!("{}  {name}\n", sha256_hex(data)));
        }
        self.sums = Some(content);
    }

    fn verify(&self) -> Result<(), Error> {
        let sums = match &self.sums {
            Some(c) => SumsFile::Read(c.clone()),
            None => SumsFile::Missing,
        };
        verify_sha256sums(sums, |name: String| {
            match self.files.iter().find(|(n, _)| *n == name) {
                Some((_, data)) => {
                    let mut d = StreamDigest::new();
                    for chunk in data.chunks(3) {
                        d.feed(chunk);
                    }
                    Ok(d.finish())
                }
                None => Err(format!("{name}: No such file or directory")),
            }
        })
    }
}

fn manifest(annotations: Option<Vec<(String, String)>>) -> ImageManifest {
    ImageManifest { layers: Vec::new(), annotations }
}

#[test]
fn extract_version_returns_annotation() {
    let m = manifest(Some(vec![(
        "org.opencontainers.image.version".to_string(),
        "1.2.3".to_string(),
    )]));
    assert_eq!(extract_version(&m).unwrap(), "1.2.3");
}

#[test]
fn extract_version_missing_when_annotations_none() {
    let m = manifest(None);
    assert!(matches!(extract_version(&m), Err(Error::MissingAnnotation(_))));
}

#[test]
fn extract_version_missing_when_key_absent() {
    let m = manifest(Some(Vec::new()));
    assert!(matches!(extract_version(&m), Err(Error::MissingAnnotation(_))));
}

#[test]
fn extract_created_reads_its_annotation() {
    let m = manifest(Some(vec![
        ("org.opencontainers.image.version".to_string(), "1.2.3".to_string()),
        ("org.opencontainers.image.created".to_string(), "2026-08-11T10:00:00Z".to_string()),
    ]));
    assert_eq!(extract_created(&m).as_deref(), Some("2026-08-11T10:00:00Z"));
    assert_eq!(extract_created(&manifest(None)), None);
}

fn layer(title: Option<&str>) -> LayerDescriptor {
    LayerDescriptor {
        media_type: "application/octet-stream".to_string(),
        digest: "sha256:00".to_string(),
        size: 1,
        urls: None,
        annotations: title.map(|t| vec![("org.opencontainers.image.title".to_string(), t.to_string())]),
    }
}

#[test]
fn first_layer_with_suffix_is_found() {
    let m = ImageManifest {
        layers: vec![layer(None), layer(Some("root.usr")), layer(Some("a.img")), layer(Some("b.img"))],
        annotations: None,
    };
    let found = find_layer_by_suffix(&m, ".img").expect("a layer");
    assert_eq!(found.annotations.as_ref().unwrap()[0].1, "a.img");
    assert!(find_layer_by_suffix(&m, ".tar").is_none());
}

#[test]
fn verify_sha256sums_fails_when_sums_missing() {
    let dir = Staging::new();
    assert!(matches!(dir.verify(), Err(Error::MissingSha256Sums)));
}

#[test]
fn verify_sha256sums_ok_with_matching_entry() {
    let mut dir = Staging::new();
    dir.write_sums(&[("root.img", b"hello world")]);
    assert!(dir.verify().is_ok());
}

#[test]
fn verify_sha256sums_ok_with_multiple_entries() {
    let mut dir = Staging::new();
    dir.write_sums(&[("a.img", b"aaaa"), ("b.img", b"bbbb"), ("c.img", b"cccc")]);
    assert!(dir.verify().is_ok());
}

#[test]
fn verify_sha256sums_rejects_wrong_checksum() {
    let mut dir = Staging::new();
    dir.write_file("root.img", b"hello world");
    dir.sums = Some("deadbeef  root.img\n".to_string());
    assert!(matches!(dir.verify(), Err(Error::ChecksumMismatch(name)) if name == "root.img"));
}

#[test]
fn verify_sha256sums_rejects_malformed_line() {
    let mut dir = Staging::new();
    dir.sums = Some("not-a-valid-line\n".to_string());
    assert!(matches!(dir.verify(), Err(Error::Other(_))));
}

#[test]
fn verify_sha256sums_reports_unreadable_file() {
    let mut dir = Staging::new();
    dir.sums = Some(format!("{}  gone.img\n", sha256_hex(b"x")));
    match dir.verify() {
        Err(Error::Io(m)) => assert_eq!(m, "gone.img: No such file or directory"),
        other => panic!("unexpected {other:?}"),
    }
}

#[test]
fn verify_sha256sums_reports_unreadable_listing() {
    let r = verify_sha256sums(SumsFile::Unreadable("permission denied".to_string()), |_n: String| {
        Ok(Vec::new())
    });
    assert!(matches!(r, Err(Error::Io(m)) if m == "permission denied"));
}

#[test]
fn verify_sha256sums_stops_at_first_bad_line() {
    let mut dir = Staging::new();
    dir.write_file("a.img", b"aaaa");
    dir.sums = Some(format!("{}  a.img\nbad\n{}  a.img\n", sha256_hex(b"aaaa"), sha256_hex(b"zz")));
    assert!(matches!(dir.verify(), Err(Error::Other(m)) if m == "malformed SHA256SUMS line"));
}

#[test]
fn sums_lines_split_on_two_spaces() {
    assert_eq!(
        parse_sums_line("abc  my  file.img").unwrap(),
        ("abc".to_string(), "my  file.img".to_string())
    );
    assert!(parse_sums_line("abc file.img").is_err());
    assert_eq!(sums_lines("a\r\nb\n\nc"), vec!["a", "b", "", "c"]);
}

#[test]
fn hex_is_lower_case_two_digits_per_byte() {
    assert_eq!(to_hex_lower(&[0x00, 0x0f, 0xab, 0xff]), "000fabff");
    assert_eq!(to_hex_lower(&[]), "");
}

#[test]
fn check_sum_compares_exactly() {
    let digest = Sha256::digest(b"hello world");
    let hex = sha256_hex(b"hello world");
    assert!(check_sum(&hex, &digest, "root.img").is_ok());
    assert!(matches!(
        check_sum(&hex.to_uppercase(), &digest, "root.img"),
        Err(Error::ChecksumMismatch(n)) if n == "root.img"
    ));
}

#[test]
fn stream_digest_matches_sha256() {
    let mut d = StreamDigest::new();
    d.feed(b"hello ");
    d.feed(b"world");
    assert_eq!(
        to_hex_lower(&d.finish()),
        "b94d27b9934d3e08a52e52d7da7dabfac484efe37a5380ee9088f7ace2efcde9"
    );
}

#[test]
fn parse_checksum_finds_compressed_image_line() {
    let listing = "1111  boot.tar\n2222 caustic-os.img.xz\n3333  other.img.xz\n";
    assert_eq!(parse_checksum(listing).as_deref(), Some("2222"));
    assert_eq!(parse_checksum("1111  boot.tar\n"), None);
}

#[test]
fn download_checksum_ignores_case() {
    let digest = Sha256::digest(b"image");
    let hex = sha256_hex(b"image");
    assert!(check_checksum(Some(hex.to_uppercase()), &digest).is_ok());
    assert!(check_checksum(None, &digest).is_ok());
    match check_checksum(Some("abcd".to_string()), &digest) {
        Err(DownloadError::ChecksumMismatch { expected, actual }) => {
            assert_eq!(expected, "abcd");
            assert_eq!(actual, hex);
        }
        other => panic!("unexpected {other:?}"),
    }
}

#[test]
fn image_download_counts_and_checks() {
    let hex = sha256_hex(b"hello world");
    let mut d = ImageDownload::start(Some(11), Some(hex)).expect("length known");
    d.receive(b"hello ");
    d.receive(b"world");
    assert_eq!(d.downloaded, 11);
    assert_eq!(d.total, 11);
    assert!(d.finish().is_ok());

    let mut bad = ImageDownload::start(Some(3), Some("00".to_string())).expect("length known");
    bad.receive(b"abc");
    assert!(matches!(bad.finish(), Err(DownloadError::ChecksumMismatch { .. })));

    assert!(matches!(ImageDownload::start(None, None), Err(DownloadError::NoContentLength)));
}

#[test]
fn download_error_messages() {
    assert_eq!(DownloadError::NoContentLength.message(), "Server did not report content length");
    assert_eq!(
        DownloadError::ChecksumMismatch { expected: "a".to_string(), actual: "b".to_string() }.message(),
        "Checksum mismatch: expected a, got b"
    );
    assert_eq!(DownloadError::RequestFailed("x".to_string()).message(), "Request failed: x");
    assert_eq!(DownloadError::IoFailed("y".to_string()).message(), "I/O error: y");
}
