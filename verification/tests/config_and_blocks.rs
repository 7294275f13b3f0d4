use minigrep::FileReport;
use minigrep::RunParameters;
use minigrep::file_blocks;
use minigrep::no_files_notice;
use minigrep::report_block;

#[test]
fn test_invalid_pattern_is_rejected() {
    let r = RunParameters::from_config("[", false, false, false, false);
    assert!(r.is_err());
    assert!(!r.err().unwrap().message.is_empty());
}

#[test]
fn test_all_text_forces_highlight() {
    let p = RunParameters::from_config("x", false, false, false, true).unwrap();
    assert!(p.highlight);
    assert!(p.all_text);
    let q = RunParameters::from_config("x", false, false, true, false).unwrap();
    assert!(q.highlight);
    assert!(!q.all_text);
}

#[test]
fn test_run_parameters_eq() {
    let a = RunParameters::from_config("Rust", true, true, false, false).unwrap();
    let b = RunParameters::from_config("Rust", true, true, false, false).unwrap();
    let c = RunParameters::from_config("Rust", false, true, false, false).unwrap();
    assert!(a == b);
    assert!(a != c);
}

#[test]
fn test_case_insensitive_pattern_is_folded() {
    let a = RunParameters::from_config("RUST", true, false, false, false).unwrap();
    let b = RunParameters::from_config("rust", true, false, false, false).unwrap();
    assert!(a == b);
}

#[test]
fn test_scanned_report_block() {
    let report = FileReport::Scanned {
        path: b"a.txt".to_vec(),
        rows: vec![b"one".to_vec(), b"two".to_vec()],
    };
    let block = report_block(&report);
    assert_eq!(block, b"\nResults for file: a.txt \none\ntwo\n".to_vec());
}

#[test]
fn test_scanned_report_block_no_rows() {
    let report = FileReport::Scanned { path: b"a.txt".to_vec(), rows: vec![] };
    let block = report_block(&report);
    assert_eq!(block, b"\nResults for file: a.txt \n\n".to_vec());
}

#[test]
fn test_open_failed_report_block() {
    let report = FileReport::OpenFailed {
        path: b"b.txt".to_vec(),
        error: b"No such file".to_vec(),
    };
    let block = report_block(&report);
    assert_eq!(block, b"Error opening file b.txt: No such file\n".to_vec());
}

#[test]
fn test_one_block_per_report() {
    let reports = vec![
        FileReport::Scanned { path: b"a.txt".to_vec(), rows: vec![b"hit".to_vec()] },
        FileReport::OpenFailed { path: b"b.txt".to_vec(), error: b"denied".to_vec() },
        FileReport::Scanned { path: b"c.txt".to_vec(), rows: vec![] },
    ];
    let blocks = file_blocks(&reports);
    assert_eq!(blocks.len(), 3);
    assert_eq!(blocks[0], b"\nResults for file: a.txt \nhit\n".to_vec());
    assert_eq!(blocks[1], b"Error opening file b.txt: denied\n".to_vec());
    assert_eq!(blocks[2], b"\nResults for file: c.txt \n\n".to_vec());
}

#[test]
fn test_no_files_notice_text() {
    assert_eq!(no_files_notice(), b"No file found".to_vec());
}
