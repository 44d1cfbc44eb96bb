use fastq_pair_filter::checker::FilterConfig;
use fastq_pair_filter::paths::infer_output_path;
use fastq_pair_filter::record::FastqEntry;
use fastq_pair_filter::stats::render_report;
use fastq_pair_filter::stats::u64_to_string;
use fastq_pair_filter::stats::ReportPaths;
use fastq_pair_filter::stats::RunStats;

fn paths(remove_reads: Option<&str>) -> ReportPaths {
    ReportPaths {
        i1: "in1.fastq.gz".to_string(),
        o1: "out1.fastq".to_string(),
        f1: "flt1.fastq".to_string(),
        i2: "in2.fastq.gz".to_string(),
        o2: "out2.fastq".to_string(),
        f2: "flt2.fastq".to_string(),
        remove_reads: remove_reads.map(|s| s.to_string()),
    }
}

// The report must contain the four counter lines literally.
#[test]
fn report_contains_the_counter_lines() {
    let cfg = FilterConfig::new(36, &Vec::new(), None);
    let stats = RunStats {
        read_pairs_checked: 10,
        read_pairs_removed: 3,
        read_pairs_remaining: 7,
    };
    let report = render_report(&cfg, &stats, &paths(None));
    assert!(report.contains("read_pairs_checked 10\n"));
    assert!(report.contains("read_pairs_removed 3\n"));
    assert!(report.contains("read_pairs_remaining 7\n"));
    assert!(report.contains("filter_threshold 36\n"));
}

#[test]
fn report_exact_text_without_optional_lines() {
    let cfg = FilterConfig::new(36, &Vec::new(), None);
    let stats = RunStats {
        read_pairs_checked: 10,
        read_pairs_removed: 3,
        read_pairs_remaining: 7,
    };
    let report = render_report(&cfg, &stats, &paths(None));
    let expected = "r1i in1.fastq.gz\nr1o out1.fastq\nr1f flt1.fastq\n\
                    r2i in2.fastq.gz\nr2o out2.fastq\nr2f flt2.fastq\n\
                    read_pairs_checked 10\nread_pairs_removed 3\n\
                    read_pairs_remaining 7\nfilter_threshold 36\n";
    assert_eq!(report, expected);
}

// The excluded tiles appear sorted and deduplicated; the exclusion-file
// path appears only when one was configured.
#[test]
fn report_lists_tiles_sorted_and_exclusion_file() {
    let tiles = vec!["22".to_string(), "15".to_string(), "22".to_string()];
    let reads: Vec<String> = Vec::new();
    let cfg = FilterConfig::new(36, &tiles, Some(&reads));
    let stats = RunStats {
        read_pairs_checked: 0,
        read_pairs_removed: 0,
        read_pairs_remaining: 0,
    };
    let report = render_report(&cfg, &stats, &paths(Some("bad_reads.txt")));
    assert!(report.contains("remove_tiles 15,22\n"));
    assert!(!report.contains("22,22"));
    assert!(report.ends_with("remove_reads bad_reads.txt\n"));
}

#[test]
fn report_omits_empty_tile_list() {
    let cfg = FilterConfig::new(1, &Vec::new(), None);
    let stats = RunStats {
        read_pairs_checked: 0,
        read_pairs_removed: 0,
        read_pairs_remaining: 0,
    };
    let report = render_report(&cfg, &stats, &paths(None));
    assert!(!report.contains("remove_tiles"));
    assert!(!report.contains("remove_reads"));
}

#[test]
fn u64_rendering_is_decimal() {
    assert_eq!(u64_to_string(0), "0");
    assert_eq!(u64_to_string(7), "7");
    assert_eq!(u64_to_string(36), "36");
    assert_eq!(u64_to_string(1045), "1045");
    assert_eq!(u64_to_string(u64::MAX), "18446744073709551615");
}

#[test]
fn explicit_output_path_is_used_as_given() {
    let explicit = "chosen.fastq".to_string();
    let input = "reads_1.fastq.gz".to_string();
    let r = infer_output_path(Some(&explicit), &input, "_filtered.fastq");
    assert_eq!(r, "chosen.fastq");
}

#[test]
fn fastq_gz_suffix_is_stripped_for_derived_path() {
    let input = "reads_1.fastq.gz".to_string();
    assert_eq!(infer_output_path(None, &input, "_filtered.fastq"), "reads_1_filtered.fastq");
    assert_eq!(
        infer_output_path(None, &input, "_filtered_reads.fastq"),
        "reads_1_filtered_reads.fastq"
    );
}

#[test]
fn short_gz_suffix_is_stripped_for_derived_path() {
    let input = "reads_1.fq.gz".to_string();
    assert_eq!(infer_output_path(None, &input, "_filtered.fastq"), "reads_1_filtered.fastq");
}

#[test]
fn entry_starts_empty_and_clears() {
    let mut e = FastqEntry::new();
    assert_eq!(e.id, "");
    assert_eq!(e.tile_id, "");
    e.id = "@x\n".to_string();
    e.seq = "ACGT\n".to_string();
    e.clear();
    assert_eq!(e.id, "");
    assert_eq!(e.seq, "");
}

#[test]
fn entry_description_has_all_fields() {
    let mut e = FastqEntry::new();
    e.id = "@a:b:c:d:e x\n".to_string();
    e.seq = "ACGT\n".to_string();
    e.strand = "+\n".to_string();
    e.qual = "IIII\n".to_string();
    e.tile_id = "e".to_string();
    e.read_id = "@a:b:c:d:e".to_string();
    assert_eq!(
        e.to_string(),
        "read: @a:b:c:d:e x\nseq: ACGT\nstrand: +\nqual: IIII\ntile: e"
    );
}
