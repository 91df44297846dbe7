use gigaam_core::ctc::{ctc_greedy_decode_ids, decode_token_ids_to_text};

/// Order-preserving embedding of a (non-NaN) float score into the
/// integer keys the decoder compares.
fn logit_key(x: f32) -> i64 {
    let bits = x.to_bits();
    let flipped = if bits & 0x8000_0000 != 0 {
        !bits
    } else {
        bits | 0x8000_0000
    };
    flipped as i64
}

fn rows_from(raw: &[f32], vocab_size: usize) -> Vec<Vec<i64>> {
    raw.chunks(vocab_size).map(|row| row.iter().map(|&v| logit_key(v)).collect()).collect()
}

#[test]
fn ctc_decoder_collapses_repeats_and_removes_blank() {
    let raw: [f32; 24] = [
        0.0, 5.0, 1.0, -1.0, // token 1
        0.0, 4.0, 1.0, -1.0, // repeated token 1 (collapsed)
        0.0, 1.0, 0.0, 3.0, // blank
        0.0, 6.0, 0.0, -1.0, // token 1 again (kept because blank separated)
        0.0, 1.0, 5.0, -1.0, // token 2
        0.0, 1.0, 4.0, -1.0, // repeated token 2 (collapsed)
    ];
    let logits = rows_from(&raw, 4);

    let token_ids = ctc_greedy_decode_ids(&logits, 6, 3);
    assert_eq!(token_ids, vec![1, 1, 2]);
}

#[test]
fn tie_break_selects_highest_index_reproducibly() {
    let logits = vec![vec![5i64, 1, 5, 0]];
    let first = ctc_greedy_decode_ids(&logits, 1, 3);
    let second = ctc_greedy_decode_ids(&logits, 1, 3);
    assert_eq!(first, vec![2]);
    assert_eq!(first, second);
}

#[test]
fn decoder_reads_at_most_encoded_len_frames() {
    let logits = vec![vec![0i64, 9, 0, 0], vec![0i64, 0, 9, 0]];
    let token_ids = ctc_greedy_decode_ids(&logits, 1, 3);
    assert_eq!(token_ids, vec![1]);
}

#[test]
fn decoder_skips_out_of_range_ids_in_text_mapping() {
    let vocab = vec![String::from("a"), String::from("b")];
    let text = decode_token_ids_to_text(&vec![0, 7, 1], &vocab);
    assert_eq!(text, "ab");
}

#[test]
fn text_mapping_strips_leading_space() {
    let vocab = vec![String::from(" hello"), String::from("world")];
    let text = decode_token_ids_to_text(&vec![0, 1], &vocab);
    assert_eq!(text, "helloworld");
}

#[test]
fn text_mapping_keeps_single_space_before_word() {
    let vocab = vec![String::from(" hi"), String::from(" you")];
    let text = decode_token_ids_to_text(&vec![0, 1], &vocab);
    assert_eq!(text, "hi you");
}

#[test]
fn text_mapping_strips_space_before_punctuation() {
    let vocab = vec![String::from(" hi"), String::from(" ,"), String::from(" there")];
    let text = decode_token_ids_to_text(&vec![0, 1, 2], &vocab);
    assert_eq!(text, "hi, there");
}

#[test]
fn text_mapping_strips_trailing_space() {
    let vocab = vec![String::from(" hi"), String::from(" ")];
    let text = decode_token_ids_to_text(&vec![0, 1], &vocab);
    assert_eq!(text, "hi");
}

#[test]
fn text_mapping_spaces_cyrillic_words() {
    let vocab = vec![String::from("\u{43f}\u{440}\u{438}"), String::from(" \u{432}\u{435}\u{442}")];
    let text = decode_token_ids_to_text(&vec![0, 1], &vocab);
    assert_eq!(text, "\u{43f}\u{440}\u{438} \u{432}\u{435}\u{442}");
}
