use clusterpluk::record::ReadRecord;
use clusterpluk::select::{pluck_best_read_from_cluster, Member};

/// The total-order key of the average per-base error probability of a pair,
/// from its two Phred+33 quality strings: the bit pattern of the mean of
/// `10^(-(q - 33) / 10)` over all positions, which orders like the mean
/// itself since the mean is non-negative.
fn phred_score_key(q1: &[u8], q2: &[u8]) -> u64 {
    let n = q1.len() + q2.len();
    if n == 0 {
        return u64::MAX;
    }
    let sum: f64 = q1
        .iter()
        .chain(q2.iter())
        .map(|&q| 10f64.powf(-((q as f64) - 33.0) / 10.0))
        .sum();
    (sum / n as f64).to_bits()
}

fn member(id: &str, seq1: &str, qual1: &str, seq2: &str, qual2: &str) -> Member {
    let r1 = ReadRecord::new(
        id.as_bytes().to_vec(),
        seq1.as_bytes().to_vec(),
        qual1.as_bytes().to_vec(),
    );
    let r2 = ReadRecord::new(
        id.as_bytes().to_vec(),
        seq2.as_bytes().to_vec(),
        qual2.as_bytes().to_vec(),
    );
    let score = phred_score_key(qual1.as_bytes(), qual2.as_bytes());
    Member { r1, r2, score }
}

#[test]
fn singleton_pass_through() {
    // A cluster of one member yields that member, whatever its quality.
    let cluster = vec![member("only", "ACGT", "!!!!", "GGCA", "!!!!")];
    assert_eq!(pluck_best_read_from_cluster(&cluster), 0);
}

#[test]
fn consensus_correctness() {
    // Combined sequences [A, A, B]; among the two A members the one with the
    // lower average error probability wins; B never does.
    let cluster = vec![
        member("a1", "ACGT", "IIII", "GGCA", "IIII"), // A, high quality
        member("a2", "ACGT", "!!!!", "GGCA", "!!!!"), // A, low quality
        member("b", "TTTT", "IIII", "TTTT", "IIII"),  // B, high quality
    ];
    assert_eq!(pluck_best_read_from_cluster(&cluster), 0);

    // The same cluster with the A members swapped: the later, better A wins.
    let cluster = vec![
        member("a2", "ACGT", "!!!!", "GGCA", "!!!!"),
        member("a1", "ACGT", "IIII", "GGCA", "IIII"),
        member("b", "TTTT", "IIII", "TTTT", "IIII"),
    ];
    assert_eq!(pluck_best_read_from_cluster(&cluster), 1);
}

#[test]
fn best_quality_among_agreers_not_overall() {
    // The lone dissenter has the best quality of all, but the representative
    // must agree with the consensus.
    let cluster = vec![
        member("a1", "ACGT", "5555", "GGCA", "5555"),
        member("a2", "ACGT", "!!!!", "GGCA", "!!!!"),
        member("b", "TTTT", "IIII", "TTTT", "IIII"),
    ];
    assert_eq!(pluck_best_read_from_cluster(&cluster), 0);
}

#[test]
fn group_tie_prefers_first_seen_group() {
    // Two groups of one member each: the group seen first wins, even though
    // the other member has better quality.
    let cluster = vec![
        member("a", "ACGT", "!!!!", "GGCA", "!!!!"),
        member("b", "TTTT", "IIII", "TTTT", "IIII"),
    ];
    assert_eq!(pluck_best_read_from_cluster(&cluster), 0);
}

#[test]
fn score_tie_prefers_first_in_cluster_order() {
    let cluster = vec![
        member("a1", "ACGT", "IIII", "GGCA", "IIII"),
        member("a2", "ACGT", "IIII", "GGCA", "IIII"),
    ];
    assert_eq!(pluck_best_read_from_cluster(&cluster), 0);
}

#[test]
fn combined_sequence_decides_grouping() {
    // The split between the mates does not matter, only the concatenation:
    // "AC" + "GT" and "ACG" + "T" bear the same combined sequence.
    let cluster = vec![
        member("a1", "AC", "II", "GT", "II"),
        member("a2", "ACG", "!!!", "T", "!"),
        member("a3", "ACGG", "IIII", "T", "I"),
    ];
    // Consensus group has two members; the higher-quality one is first.
    assert_eq!(pluck_best_read_from_cluster(&cluster), 0);
}
