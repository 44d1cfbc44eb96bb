use fastq_pair_filter::checker::FilterConfig;
use fastq_pair_filter::record::parse_header;
use fastq_pair_filter::record::read_entry;

fn record(id: &str, seq: &str) -> Vec<String> {
    vec![
        format!("{}\n", id),
        format!("{}\n", seq),
        "+\n".to_string(),
        format!("{}\n", "I".repeat(seq.len())),
    ]
}

fn stream(records: &[Vec<String>]) -> Vec<String> {
    let mut lines = Vec::new();
    for r in records {
        lines.extend(r.iter().cloned());
    }
    lines
}

fn base(c: char, n: usize) -> String {
    std::iter::repeat(c).take(n).collect()
}

#[test]
fn parse_header_derives_read_and_tile_id() {
    let r = parse_header("@SIM:1:FCX:1:15:6329:1045 1:N:0:2\n").unwrap();
    assert_eq!(r.0, "@SIM:1:FCX:1:15:6329:1045");
    assert_eq!(r.1, "15");
}

#[test]
fn parse_header_without_space_is_rejected() {
    assert!(parse_header("@SIM:1:FCX:1:15:6329:1045\n").is_err());
}

#[test]
fn parse_header_with_few_fields_is_rejected() {
    assert!(parse_header("@SIM:1:FCX 1:N:0:2\n").is_err());
}

#[test]
fn parse_header_with_exactly_five_fields_is_accepted() {
    let r = parse_header("@a:b:c:d:e x\n").unwrap();
    assert_eq!(r.0, "@a:b:c:d:e");
    assert_eq!(r.1, "e");
}

#[test]
fn read_entry_reads_four_lines_and_derived_fields() {
    let lines = stream(&[record("@m:1:f:2:77:8:9 1:N:0:2", "ACGT")]);
    let e = read_entry(&lines, 0).unwrap().unwrap();
    assert_eq!(e.id, "@m:1:f:2:77:8:9 1:N:0:2\n");
    assert_eq!(e.seq, "ACGT\n");
    assert_eq!(e.strand, "+\n");
    assert_eq!(e.qual, "IIII\n");
    assert_eq!(e.read_id, "@m:1:f:2:77:8:9");
    assert_eq!(e.tile_id, "77");
}

#[test]
fn read_entry_with_fewer_than_four_lines_is_stream_end() {
    let lines = vec!["@a:b:c:d:e x\n".to_string(), "ACGT\n".to_string(), "+\n".to_string()];
    assert!(read_entry(&lines, 0).unwrap().is_none());
}

#[test]
fn read_entry_with_empty_line_is_stream_end() {
    let lines = vec![
        "@a:b:c:d:e x\n".to_string(),
        "".to_string(),
        "+\n".to_string(),
        "III\n".to_string(),
    ];
    assert!(read_entry(&lines, 0).unwrap().is_none());
}

#[test]
fn read_entry_with_malformed_header_is_fatal() {
    let lines = stream(&[record("@no_space_here", "ACGT")]);
    assert!(read_entry(&lines, 0).is_err());
}

// Boundary: sequence length equal to the threshold is rejected; one more
// character is accepted, on both mates.
#[test]
fn length_equal_to_threshold_is_rejected() {
    let cfg = FilterConfig::new(10, &Vec::new(), None);
    let l1 = stream(&[record("@a:b:c:d:e 1", &base('A', 10))]);
    let l2 = stream(&[record("@a:b:c:d:e 2", &base('C', 11))]);
    let out = cfg.run(&l1, &l2);
    assert!(out.error.is_none());
    assert_eq!(out.stats.read_pairs_checked, 1);
    assert_eq!(out.stats.read_pairs_removed, 1);
    assert_eq!(out.stats.read_pairs_remaining, 0);
}

#[test]
fn length_one_over_threshold_is_accepted() {
    let cfg = FilterConfig::new(10, &Vec::new(), None);
    let l1 = stream(&[record("@a:b:c:d:e 1", &base('A', 11))]);
    let l2 = stream(&[record("@a:b:c:d:e 2", &base('C', 11))]);
    let out = cfg.run(&l1, &l2);
    assert_eq!(out.stats.read_pairs_removed, 0);
    assert_eq!(out.stats.read_pairs_remaining, 1);
}

// Precedence: a pair that passes the length rule but whose mate-1 tile id
// is excluded is rejected.
#[test]
fn excluded_tile_rejects_long_pair() {
    let tiles = vec!["15".to_string()];
    let cfg = FilterConfig::new(10, &tiles, None);
    let l1 = stream(&[record("@m:1:f:2:15:8:9 1:N:0:2", &base('A', 40))]);
    let l2 = stream(&[record("@m:1:f:2:15:8:9 2:N:0:2", &base('C', 40))]);
    let out = cfg.run(&l1, &l2);
    assert_eq!(out.stats.read_pairs_removed, 1);
    assert_eq!(out.stats.read_pairs_remaining, 0);
    assert_eq!(out.kept1.len(), 0);
    assert_eq!(out.filtered1.len(), 4);
}

#[test]
fn tile_of_mate_two_is_never_checked() {
    let tiles = vec!["99".to_string()];
    let cfg = FilterConfig::new(10, &tiles, None);
    let l1 = stream(&[record("@m:1:f:2:15:8:9 1:N:0:2", &base('A', 40))]);
    let l2 = stream(&[record("@m:1:f:2:99:8:9 2:N:0:2", &base('C', 40))]);
    let out = cfg.run(&l1, &l2);
    assert_eq!(out.stats.read_pairs_remaining, 1);
}

// Precedence: a pair that passes length and tile rules but whose mate-1
// read id is excluded is rejected; mate-2's read id alone is not checked.
#[test]
fn excluded_read_id_rejects_pair() {
    let reads = vec!["m:1:f:2:15:8:9 some description".to_string()];
    let cfg = FilterConfig::new(10, &Vec::new(), Some(&reads));
    let l1 = stream(&[record("@m:1:f:2:15:8:9 1:N:0:2", &base('A', 40))]);
    let l2 = stream(&[record("@m:1:f:2:15:8:9 2:N:0:2", &base('C', 40))]);
    let out = cfg.run(&l1, &l2);
    assert_eq!(out.stats.read_pairs_removed, 1);
    assert_eq!(out.stats.read_pairs_remaining, 0);
}

#[test]
fn excluded_read_id_of_mate_two_alone_keeps_pair() {
    let reads = vec!["mate2only:1:f:2:15:8 x".to_string()];
    let cfg = FilterConfig::new(10, &Vec::new(), Some(&reads));
    let l1 = stream(&[record("@m:1:f:2:15:8:9 1:N:0:2", &base('A', 40))]);
    let l2 = stream(&[record("@mate2only:1:f:2:15:8 2:N:0:2", &base('C', 40))]);
    let out = cfg.run(&l1, &l2);
    assert_eq!(out.stats.read_pairs_removed, 0);
    assert_eq!(out.stats.read_pairs_remaining, 1);
}

// Truncation: three records against two process exactly two pairs, and
// mate 1's third record is never read.
#[test]
fn mismatched_stream_lengths_truncate_silently() {
    let cfg = FilterConfig::new(2, &Vec::new(), None);
    let l1 = stream(&[
        record("@a:b:c:d:e 1", "AAAA"),
        record("@f:g:h:i:j 1", "CCCC"),
        record("@k:l:m:n:o 1", "GGGG"),
    ]);
    let l2 = stream(&[record("@a:b:c:d:e 2", "TTTT"), record("@f:g:h:i:j 2", "AAAA")]);
    let out = cfg.run(&l1, &l2);
    assert!(out.error.is_none());
    assert_eq!(out.stats.read_pairs_checked, 2);
    let all_out: Vec<String> =
        out.kept1.iter().chain(out.filtered1.iter()).cloned().collect();
    assert!(!all_out.contains(&"@k:l:m:n:o 1\n".to_string()));
}

// Scenario: threshold 36; pair A has both sequences of length 40 and is
// kept; pair B has mate-1 length 20 and mate-2 length 40 and is filtered,
// whatever mate 2's length.
#[test]
fn threshold_36_scenario_counts() {
    let cfg = FilterConfig::new(36, &Vec::new(), None);
    let l1 = stream(&[
        record("@a:b:c:d:e 1", &base('A', 40)),
        record("@f:g:h:i:j 1", &base('A', 20)),
    ]);
    let l2 = stream(&[
        record("@a:b:c:d:e 2", &base('C', 40)),
        record("@f:g:h:i:j 2", &base('C', 40)),
    ]);
    let out = cfg.run(&l1, &l2);
    assert_eq!(out.stats.read_pairs_checked, 2);
    assert_eq!(out.stats.read_pairs_removed, 1);
    assert_eq!(out.stats.read_pairs_remaining, 1);
    assert_eq!(out.kept1.len(), 4);
    assert_eq!(out.kept1[0], "@a:b:c:d:e 1\n");
    assert_eq!(out.filtered1[0], "@f:g:h:i:j 1\n");
}

// Counter consistency: checked equals removed plus remaining.
#[test]
fn counters_are_consistent() {
    let cfg = FilterConfig::new(5, &Vec::new(), None);
    let l1 = stream(&[
        record("@a:b:c:d:e 1", "ACGTACGT"),
        record("@f:g:h:i:j 1", "AC"),
        record("@k:l:m:n:o 1", "ACGTACGTACGT"),
    ]);
    let l2 = stream(&[
        record("@a:b:c:d:e 2", "ACGTACGT"),
        record("@f:g:h:i:j 2", "ACGTACGT"),
        record("@k:l:m:n:o 2", "AC"),
    ]);
    let out = cfg.run(&l1, &l2);
    assert_eq!(
        out.stats.read_pairs_checked,
        out.stats.read_pairs_removed + out.stats.read_pairs_remaining
    );
    assert_eq!(out.stats.read_pairs_checked, 3);
    assert_eq!(out.stats.read_pairs_remaining, 1);
}

// Passthrough: the sinks hold exactly the input lines of the routed
// records, byte for byte, in order.
#[test]
fn routed_lines_are_verbatim() {
    let cfg = FilterConfig::new(3, &Vec::new(), None);
    let a1 = record("@a:b:c:d:e 1", "AAAA");
    let b1 = record("@f:g:h:i:j 1", "C");
    let a2 = record("@a:b:c:d:e 2", "GGGG");
    let b2 = record("@f:g:h:i:j 2", "TTTT");
    let l1 = stream(&[a1.clone(), b1.clone()]);
    let l2 = stream(&[a2.clone(), b2.clone()]);
    let out = cfg.run(&l1, &l2);
    assert_eq!(out.kept1, a1);
    assert_eq!(out.kept2, a2);
    assert_eq!(out.filtered1, b1);
    assert_eq!(out.filtered2, b2);
}

// Idempotence: running the filter again on its own kept output, with the
// same threshold and no exclusion sets, removes nothing.
#[test]
fn rerun_on_kept_output_removes_nothing() {
    let tiles = vec!["15".to_string()];
    let cfg = FilterConfig::new(6, &tiles, None);
    let l1 = stream(&[
        record("@a:b:c:d:e 1", "ACGTACGT"),
        record("@m:1:f:2:15:8:9 1", "ACGTACGT"),
        record("@f:g:h:i:j 1", "ACG"),
        record("@k:l:m:n:o 1", "ACGTACGTACGT"),
    ]);
    let l2 = stream(&[
        record("@a:b:c:d:e 2", "ACGTACGT"),
        record("@m:1:f:2:15:8:9 2", "ACGTACGT"),
        record("@f:g:h:i:j 2", "ACGTACGT"),
        record("@k:l:m:n:o 2", "ACGTACGTACGT"),
    ]);
    let first = cfg.run(&l1, &l2);
    assert_eq!(first.stats.read_pairs_remaining, 2);
    let cfg2 = FilterConfig::new(6, &Vec::new(), None);
    let second = cfg2.run(&first.kept1, &first.kept2);
    assert!(second.error.is_none());
    assert_eq!(second.stats.read_pairs_removed, 0);
    assert_eq!(second.stats.read_pairs_checked, first.stats.read_pairs_remaining);
    assert_eq!(second.kept1, first.kept1);
    assert_eq!(second.kept2, first.kept2);
}

// A malformed header aborts the run; pairs already routed stand.
#[test]
fn malformed_header_aborts_mid_run() {
    let cfg = FilterConfig::new(2, &Vec::new(), None);
    let l1 = stream(&[record("@a:b:c:d:e 1", "AAAA"), record("@broken", "CCCC")]);
    let l2 = stream(&[record("@a:b:c:d:e 2", "TTTT"), record("@f:g:h:i:j 2", "GGGG")]);
    let out = cfg.run(&l1, &l2);
    assert!(out.error.is_some());
    assert_eq!(out.stats.read_pairs_checked, 1);
    assert_eq!(out.kept1.len(), 4);
    assert_eq!(out.kept1[0], "@a:b:c:d:e 1\n");
}

// The asymmetry is preserved: when mate 1 is exhausted, mate 2's next
// record is still read, and a malformed header there still aborts.
#[test]
fn malformed_mate_two_header_after_mate_one_ends_aborts() {
    let cfg = FilterConfig::new(2, &Vec::new(), None);
    let l1 = stream(&[record("@a:b:c:d:e 1", "AAAA")]);
    let l2 = stream(&[record("@a:b:c:d:e 2", "TTTT"), record("@broken", "GGGG")]);
    let out = cfg.run(&l1, &l2);
    assert!(out.error.is_some());
    assert_eq!(out.stats.read_pairs_checked, 1);
}

#[test]
fn empty_inputs_check_nothing() {
    let cfg = FilterConfig::new(36, &Vec::new(), None);
    let out = cfg.run(&Vec::new(), &Vec::new());
    assert!(out.error.is_none());
    assert_eq!(out.stats.read_pairs_checked, 0);
    assert_eq!(out.kept1.len(), 0);
    assert_eq!(out.filtered1.len(), 0);
}

// The exclusion-file token ends at the first whitespace character of any
// kind, and is matched with the sigil prefixed.
#[test]
fn exclusion_token_ends_at_tab() {
    let reads = vec!["m:1:f:2:15:8:9\tdescription".to_string()];
    let cfg = FilterConfig::new(2, &Vec::new(), Some(&reads));
    let l1 = stream(&[record("@m:1:f:2:15:8:9 1:N:0:2", "ACGT")]);
    let l2 = stream(&[record("@m:1:f:2:15:8:9 2:N:0:2", "ACGT")]);
    let out = cfg.run(&l1, &l2);
    assert_eq!(out.stats.read_pairs_removed, 1);
}

// An exclusion file with no lines enables the read rule, which then
// matches nothing.
#[test]
fn empty_exclusion_file_matches_nothing() {
    let reads: Vec<String> = Vec::new();
    let cfg = FilterConfig::new(2, &Vec::new(), Some(&reads));
    let l1 = stream(&[record("@a:b:c:d:e 1", "ACGT")]);
    let l2 = stream(&[record("@a:b:c:d:e 2", "ACGT")]);
    let out = cfg.run(&l1, &l2);
    assert_eq!(out.stats.read_pairs_remaining, 1);
}

// No sigil validation: the read id is whatever stands before the first
// space, whether or not it starts with the sigil.
#[test]
fn header_without_sigil_still_parses() {
    let r = parse_header("a:b:c:d:e x\n").unwrap();
    assert_eq!(r.0, "a:b:c:d:e");
    assert_eq!(r.1, "e");
}

// Lines left over after the last whole record are stream end, not a pair.
#[test]
fn trailing_partial_record_is_stream_end() {
    let cfg = FilterConfig::new(2, &Vec::new(), None);
    let mut l1 = stream(&[record("@a:b:c:d:e 1", "ACGT")]);
    l1.push("@f:g:h:i:j 1\n".to_string());
    l1.push("CCCC\n".to_string());
    let l2 = stream(&[record("@a:b:c:d:e 2", "TTTT"), record("@f:g:h:i:j 2", "GGGG")]);
    let out = cfg.run(&l1, &l2);
    assert!(out.error.is_none());
    assert_eq!(out.stats.read_pairs_checked, 1);
}

// A sequence line without a trailing newline counts all its characters.
#[test]
fn sequence_without_trailing_newline_counts_fully() {
    let cfg = FilterConfig::new(4, &Vec::new(), None);
    let l1 = vec![
        "@a:b:c:d:e 1\n".to_string(),
        "ACGTA".to_string(),
        "+\n".to_string(),
        "IIIII\n".to_string(),
    ];
    let l2 = stream(&[record("@a:b:c:d:e 2", "ACGTA")]);
    let out = cfg.run(&l1, &l2);
    assert_eq!(out.stats.read_pairs_remaining, 1);
}
