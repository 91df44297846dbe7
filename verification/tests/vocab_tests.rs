use gigaam_core::errors::EngineError;
use gigaam_core::vocab::parse_vocab_content;

#[test]
fn vocab_loader_parses_blank_and_word_boundary_tokens() {
    let vocab_content = "<unk> 0\n\u{2581}hello 1\nworld 2\n<blk> 3\n";
    let (vocab, blank_idx) = parse_vocab_content(vocab_content).unwrap();

    assert_eq!(blank_idx, 3);
    assert_eq!(vocab[1], " hello");
    assert_eq!(vocab[2], "world");
}

#[test]
fn vocab_line_without_space_is_invalid() {
    let result = parse_vocab_content("token0\n<blk> 1\n");
    assert!(matches!(result, Err(EngineError::InvalidVocabLine(l)) if l == "token0"));
}

#[test]
fn vocab_line_with_bad_id_is_invalid() {
    let result = parse_vocab_content("tok abc\n<blk> 1\n");
    assert!(matches!(result, Err(EngineError::InvalidVocabId(l)) if l == "tok abc"));
}

#[test]
fn vocab_without_blank_token_is_rejected() {
    let result = parse_vocab_content("a 0\nb 1\n");
    assert!(matches!(result, Err(EngineError::MissingBlankToken)));
}

#[test]
fn vocab_fills_absent_ids_with_empty_strings() {
    let (vocab, blank_idx) = parse_vocab_content("a 0\n<blk> 4\n").unwrap();
    assert_eq!(blank_idx, 4);
    assert_eq!(vocab.len(), 5);
    assert_eq!(vocab[0], "a");
    assert_eq!(vocab[1], "");
    assert_eq!(vocab[2], "");
    assert_eq!(vocab[3], "");
    assert_eq!(vocab[4], "<blk>");
}

#[test]
fn vocab_skips_blank_lines_and_trims_line_ends() {
    let (vocab, blank_idx) = parse_vocab_content("a 0\r\n\n<blk> 1\r\n").unwrap();
    assert_eq!(blank_idx, 1);
    assert_eq!(vocab[0], "a");
    assert_eq!(vocab[1], "<blk>");
}

#[test]
fn vocab_later_entry_for_same_id_wins() {
    let (vocab, _) = parse_vocab_content("a 0\nb 0\n<blk> 1\n").unwrap();
    assert_eq!(vocab[0], "b");
}
