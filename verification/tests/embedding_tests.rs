use readit::embedding::{fold_embeddings, split_string, CONTEXT_CEILING};
use readit::fingerprint;
use readit::pooling::pooling;

#[test]
fn fingerprint_is_deterministic() {
    let a = fingerprint("fn main() {}\n");
    let b = fingerprint("fn main() {}\n");
    assert_eq!(a, b);
    let c = fingerprint("fn main() { println!(); }\n");
    assert_ne!(a, c);
}

#[test]
fn fingerprint_known_digest() {
    let d = fingerprint("abcdefghijklmnopqrstuvwxyz");
    assert_eq!(d, "c3fcd3d76192e4007dfb496cca67e13b");
    assert_eq!(d.len(), 32);
}

#[test]
fn fingerprint_of_empty_content() {
    let d = fingerprint("");
    assert_eq!(d, "d41d8cd98f00b204e9800998ecf8427e");
}

#[test]
fn pooling_exact_means() {
    let input: Vec<i64> = vec![10, 20, 30, 40];
    let out = pooling(2, &input);
    assert_eq!(out, vec![15, 35]);
}

#[test]
fn pooling_floors_toward_negative_infinity() {
    let input: Vec<i64> = vec![1, 2, -1, -2];
    let out = pooling(2, &input);
    assert_eq!(out, vec![1, -2]);
}

#[test]
fn pooling_with_stride_three() {
    let input: Vec<i64> = vec![3, 6, 9, 12, 15, 18];
    let out = pooling(2, &input);
    // stride = 3: windows [3,6,9] and [12,15,18], means 6 and 15
    assert_eq!(out, vec![6, 15]);
}

#[test]
fn pooling_matches_fractional_means_scaled() {
    // The buffer [1,2,3,4] with target 2 has window means 1.5 and 3.5;
    // scaled by ten the means are exact fixed-point values.
    let input: Vec<i64> = vec![10, 20, 30, 40];
    let out = pooling(2, &input);
    assert_eq!(out[0] as f64 / 10.0, 1.5);
    assert_eq!(out[1] as f64 / 10.0, 3.5);
}

#[test]
fn split_keeps_every_line_and_flushes_at_ceiling() {
    let chunks = split_string("a\nbb\nccc", 4);
    assert_eq!(chunks, vec!["a\nbb".to_string(), "ccc".to_string()]);
}

#[test]
fn split_of_empty_text_is_one_empty_chunk() {
    let chunks = split_string("", 4);
    assert_eq!(chunks, vec!["".to_string()]);
}

#[test]
fn split_keeps_an_oversized_single_line() {
    let chunks = split_string("xxxxxxxx", 3);
    assert_eq!(chunks, vec!["xxxxxxxx".to_string()]);
}

#[test]
fn split_under_the_default_ceiling_is_one_chunk() {
    let chunks = split_string("short\ntext", CONTEXT_CEILING);
    assert_eq!(chunks, vec!["short\ntext".to_string()]);
}

#[test]
fn oversized_input_folds_back_to_the_target_width() {
    // Two chunks of width three: the flat buffer has length six, the
    // stride is two, and pooling restores exactly three components.
    let parts: Vec<Vec<i64>> = vec![vec![2, 4, 6], vec![10, 12, 14]];
    let folded = fold_embeddings(3, &parts);
    assert_eq!(folded, vec![3, 8, 13]);
}

#[test]
fn oversized_scenario_many_chunks() {
    // A long text split under a small ceiling yields several chunks; one
    // embedding per chunk folds back to exactly the requested width.
    let text = "alpha\nbeta\ngamma\ndelta\nepsilon\nzeta";
    let chunks = split_string(text, 12);
    assert!(chunks.len() > 1);
    let dim = 4usize;
    let parts: Vec<Vec<i64>> = chunks
        .iter()
        .enumerate()
        .map(|(c, _)| (0..dim).map(|j| (c * dim + j) as i64).collect())
        .collect();
    let folded = fold_embeddings(dim, &parts);
    assert_eq!(folded.len(), dim);
}
