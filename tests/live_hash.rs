use live_hash::digest::{md5_digest, Digest};
use live_hash::engine::{classify, Aggregator, Status};
use live_hash::manifest::ManifestLookup;
use live_hash::text::{bare_name_of, file_name_of, two_tokens};

const HELLO_MD5: &str = "5d41402abc4b2a76b9719d911017c592";
const WORLD_MD5: &str = "7d793037a0760186574b0282f2f435e7";

fn lookup_of(lines: &[&str]) -> ManifestLookup {
    let lines: Vec<String> = lines.iter().map(|l| l.to_string()).collect();
    ManifestLookup::from_lines(&lines)
}

fn digest_of(content: &[u8]) -> Digest {
    Digest::of_content(Some(content))
}

#[test]
fn md5_of_hello_is_known_value() {
    assert_eq!(md5_digest(b"hello"), HELLO_MD5);
    assert_eq!(md5_digest(b"world"), WORLD_MD5);
    assert_eq!(md5_digest(b""), "d41d8cd98f00b204e9800998ecf8427e");
}

#[test]
fn digest_is_deterministic() {
    let first = md5_digest(b"some file content\n");
    let second = md5_digest(b"some file content\n");
    assert_eq!(first, second);
    assert_eq!(first.len(), 32);
    assert!(first.chars().all(|c| c.is_ascii_hexdigit() && !c.is_ascii_uppercase()));
}

#[test]
fn scenario_matching_file() {
    let lookup = lookup_of(&["5d41402abc4b2a76b9719d911017c592  a.txt"]);
    let mut agg = Aggregator::new(lookup);
    let status = agg.record("a.txt".to_string(), digest_of(b"hello"));
    assert_eq!(status, Status::Match);
    assert_eq!(agg.pass(), 1);
    assert_eq!(agg.fail(), 0);
    let report = agg.report(&lookup_of(&["5d41402abc4b2a76b9719d911017c592  a.txt"]));
    assert_eq!(report.render(), "a.txt\t5d41402abc4b2a76b9719d911017c592\tMATCH\n");
    assert!(report.mismatches.is_empty());
}

#[test]
fn scenario_mismatching_file() {
    let manifest = ["0123456789abcdef0123456789abcdef b.txt"];
    let mut agg = Aggregator::new(lookup_of(&manifest));
    let status = agg.record("b.txt".to_string(), digest_of(b"world"));
    assert_eq!(status, Status::Fail);
    assert!(agg.fail() >= 1);
    let report = agg.report(&lookup_of(&manifest));
    assert_eq!(report.lines.len(), 1);
    assert_eq!(report.lines[0].status, Status::Fail);
    assert_eq!(report.lines[0].to_text(), format!("b.txt\t{}\tFAIL", WORLD_MD5));
    assert_eq!(report.mismatches.len(), 1);
    assert_eq!(report.mismatches[0].filename, "b.txt");
    assert_eq!(report.mismatches[0].live, WORLD_MD5);
    assert_eq!(report.mismatches[0].reference, "0123456789abcdef0123456789abcdef");
}

#[test]
fn scenario_file_without_reference() {
    let manifest = ["5d41402abc4b2a76b9719d911017c592  a.txt"];
    let mut agg = Aggregator::new(lookup_of(&manifest));
    let status = agg.record("c.txt".to_string(), digest_of(b"anything"));
    assert_eq!(status, Status::Fail);
    assert_eq!((agg.pass(), agg.fail()), (0, 1));
    let report = agg.report(&lookup_of(&manifest));
    assert_eq!(report.lines[0].status, Status::Fail);
    assert_eq!(report.lines[0].filename, "c.txt");
    assert!(report.mismatches.is_empty());
}

#[test]
fn pass_plus_fail_counts_every_file() {
    let manifest = [
        "5d41402abc4b2a76b9719d911017c592 a.txt",
        "ffffffffffffffffffffffffffffffff b.txt",
    ];
    let mut agg = Aggregator::new(lookup_of(&manifest));
    agg.record("a.txt".to_string(), digest_of(b"hello"));
    agg.record("sub/a.txt".to_string(), digest_of(b"hello"));
    agg.record("b.txt".to_string(), digest_of(b"world"));
    agg.record("c.txt".to_string(), digest_of(b"x"));
    agg.record("gone.txt".to_string(), Digest::ReadFailed);
    assert_eq!(agg.pass(), 2);
    assert_eq!(agg.fail(), 3);
    assert_eq!(agg.pass() + agg.fail(), 5);
    assert_eq!(agg.records().len(), 5);
    let report = agg.report(&lookup_of(&manifest));
    let matches = report.lines.iter().filter(|l| l.status == Status::Match).count();
    assert_eq!(matches as u64, agg.pass());
    assert_eq!(report.lines.len(), 5);
}

#[test]
fn same_name_in_two_directories_uses_one_bucket() {
    let manifest = ["5d41402abc4b2a76b9719d911017c592 other/place/a.txt"];
    let mut agg = Aggregator::new(lookup_of(&manifest));
    assert_eq!(agg.record("x/a.txt".to_string(), digest_of(b"hello")), Status::Match);
    assert_eq!(agg.record("y/a.txt".to_string(), digest_of(b"world")), Status::Fail);
    let report = agg.report(&lookup_of(&manifest));
    assert_eq!(
        report.render(),
        format!("a.txt\t{}\tMATCH\na.txt\t{}\tFAIL\n", HELLO_MD5, WORLD_MD5)
    );
    assert_eq!(report.mismatches.len(), 1);
    assert_eq!(report.mismatches[0].reference, HELLO_MD5);
}

#[test]
fn short_lines_add_nothing() {
    let lookup = lookup_of(&["", "   ", "\t", "onlyone", "  lonely  "]);
    assert!(lookup.get("onlyone").is_none());
    assert!(lookup.get("lonely").is_none());
    assert!(lookup.get("").is_none());
    let mut lookup = ManifestLookup::new();
    lookup.add_line("abc");
    assert!(lookup.get("abc").is_none());
}

#[test]
fn duplicate_names_last_entry_wins() {
    let lookup = lookup_of(&[
        "1111 a.txt",
        "2222 dir/a.txt",
        "3333 b.txt",
        "4444 a.txt",
        "5555",
    ]);
    assert_eq!(lookup.get("a.txt").map(|h| h.as_str()), Some("4444"));
    assert_eq!(lookup.get("b.txt").map(|h| h.as_str()), Some("3333"));
}

#[test]
fn round_trip_through_manifest_line() {
    let path = "deep/dir/file.bin";
    let digest = md5_digest(b"payload");
    let line = format!("{} {}", digest, bare_name_of(path));
    let mut lookup = ManifestLookup::new();
    lookup.add_line(&line);
    assert_eq!(classify(&lookup, path, &Digest::Computed(digest.clone())), Status::Match);
}

#[test]
fn read_failure_always_fails() {
    let manifest = ["ERROR broken.txt"];
    let mut agg = Aggregator::new(lookup_of(&manifest));
    assert_eq!(agg.record("broken.txt".to_string(), Digest::of_content(None)), Status::Fail);
    let report = agg.report(&lookup_of(&manifest));
    assert_eq!(report.lines[0].to_text(), "broken.txt\tERROR\tFAIL");
    assert_eq!(report.mismatches.len(), 1);
    assert_eq!(report.mismatches[0].live, "ERROR");
}

#[test]
fn tokens_split_on_any_whitespace() {
    assert_eq!(
        two_tokens("  abc\tdef ghi"),
        Some(("abc".to_string(), "def".to_string()))
    );
    assert_eq!(
        two_tokens("h1\u{3000}name\u{a0}"),
        Some(("h1".to_string(), "name".to_string()))
    );
    assert_eq!(two_tokens("h1\r"), None);
    let lookup = lookup_of(&["abcd\u{2003}x.txt\r"]);
    assert_eq!(lookup.get("x.txt").map(|h| h.as_str()), Some("abcd"));
}

#[test]
fn file_names_follow_path_components() {
    assert_eq!(file_name_of("a/b/c.txt"), Some("c.txt".to_string()));
    assert_eq!(file_name_of("c.txt"), Some("c.txt".to_string()));
    assert_eq!(file_name_of("dir/"), Some("dir".to_string()));
    assert_eq!(file_name_of("a/."), Some("a".to_string()));
    assert_eq!(file_name_of("a/./"), Some("a".to_string()));
    assert_eq!(file_name_of("..."), Some("...".to_string()));
    assert_eq!(file_name_of("a/.."), None);
    assert_eq!(file_name_of(".."), None);
    assert_eq!(file_name_of("."), None);
    assert_eq!(file_name_of("/"), None);
    assert_eq!(file_name_of(""), None);
    assert_eq!(bare_name_of(".."), "..");
    assert_eq!(bare_name_of("x/y.txt"), "y.txt");
}

#[test]
fn manifest_entry_without_file_name_is_skipped() {
    let lookup = lookup_of(&["1234 ..", "5678 /"]);
    assert!(lookup.get("..").is_none());
    assert!(lookup.get("/").is_none());
    assert!(lookup.get("").is_none());
}
