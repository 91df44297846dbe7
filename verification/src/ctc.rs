//! Greedy best-path CTC decoding: per-frame argmax with last-max
//! tie-breaking, blank/repeat collapse, and token-to-text mapping with
//! the three-rule whitespace normalization.
//!
//! Scores are integer keys whose order mirrors the model's scores; the
//! caller maps each floating-point logit to such a key order-preservingly.

use vstd::prelude::*;
use vstd::string::*;

use crate::text::{is_space, is_space_char};

verus! {

/// Index of the best score among the first `n` entries: the maximum,
/// with the highest index winning ties.
pub open spec fn best_in_prefix(frame: Seq<i64>, n: int) -> int
    recommends
        1 <= n <= frame.len(),
    decreases n,
{
    if n <= 1 {
        0
    } else {
        let b = best_in_prefix(frame, n - 1);
        if frame[n - 1] >= frame[b] {
            n - 1
        } else {
            b
        }
    }
}

/// The index a frame decodes to: the last maximum, or the blank id for
/// an empty frame.
pub open spec fn chosen_index(frame: Seq<i64>, blank_idx: int) -> int {
    if frame.len() == 0 {
        blank_idx
    } else {
        best_in_prefix(frame, frame.len() as int)
    }
}

proof fn lemma_best_in_prefix_props(frame: Seq<i64>, n: int)
    requires
        1 <= n <= frame.len(),
    ensures
        0 <= best_in_prefix(frame, n) < n,
        forall|j: int| 0 <= j < n ==> #[trigger] frame[j] <= frame[best_in_prefix(frame, n)],
        forall|j: int|
            best_in_prefix(frame, n) < j < n ==> #[trigger] frame[j] < frame[
                best_in_prefix(frame, n)
            ],
    decreases n,
{
    if n > 1 {
        lemma_best_in_prefix_props(frame, n - 1);
    }
}

/// The chosen index of a nonempty frame attains the maximum score, and
/// every later index scores strictly less: among tied maxima the
/// highest index wins. Being a function of the frame alone, the choice
/// is the same on every run.
pub proof fn lemma_chosen_index_last_max(frame: Seq<i64>, blank_idx: int)
    requires
        frame.len() > 0,
    ensures
        0 <= chosen_index(frame, blank_idx) < frame.len(),
        forall|j: int|
            0 <= j < frame.len() ==> #[trigger] frame[j] <= frame[chosen_index(frame, blank_idx)],
        forall|j: int|
            chosen_index(frame, blank_idx) < j < frame.len() ==> #[trigger] frame[j] < frame[
                chosen_index(frame, blank_idx)
            ],
{
    lemma_best_in_prefix_props(frame, frame.len() as int);
}

/// The token ids emitted from frame `i` on, given the previously
/// chosen index: a chosen index is emitted only if it is neither the
/// blank nor a repeat of the previous choice.
pub open spec fn ctc_decode_from(
    frames: Seq<Seq<i64>>,
    usable: int,
    i: int,
    prev: int,
    blank: int,
) -> Seq<int>
    decreases usable - i,
{
    if i < 0 || i >= usable {
        Seq::empty()
    } else {
        let b = chosen_index(frames[i], blank);
        let rest = ctc_decode_from(frames, usable, i + 1, b, blank);
        if b != blank && b != prev {
            seq![b] + rest
        } else {
            rest
        }
    }
}

/// Greedy decoding of a whole utterance: at most `encoded_len` frames
/// are read, starting as if the blank had just been chosen.
pub open spec fn ctc_decode_spec(frames: Seq<Seq<i64>>, encoded_len: int, blank: int) -> Seq<
    int,
> {
    let usable = if encoded_len <= frames.len() {
        encoded_len
    } else {
        frames.len() as int
    };
    ctc_decode_from(frames, usable, 0, blank, blank)
}

/// Last-max argmax over one frame of scores.
fn frame_argmax(frame: &Vec<i64>) -> (r: usize)
    requires
        frame.len() > 0,
    ensures
        r as int == best_in_prefix(frame@, frame@.len() as int),
{
    let mut best: usize = 0;
    let mut j: usize = 1;
    while j < frame.len()
        invariant
            1 <= j <= frame.len(),
            best < j,
            best as int == best_in_prefix(frame@, j as int),
        decreases frame.len() - j,
    {
        if frame[j] >= frame[best] {
            best = j;
        }
        j += 1;
    }
    best
}

/// Greedy best-path decoding over per-frame score rows. Each row holds
/// the scores of one time step; `encoded_len` bounds how many rows are
/// read. Consecutive repeats of the same non-blank choice collapse to
/// one, but a blank between two equal choices keeps both.
pub fn ctc_greedy_decode_ids(logits: &Vec<Vec<i64>>, encoded_len: usize, blank_idx: usize) -> (r:
    Vec<usize>)
    ensures
        r@.map_values(|id: usize| id as int) == ctc_decode_spec(
            logits.deep_view(),
            encoded_len as int,
            blank_idx as int,
        ),
{
    let ghost frames = logits.deep_view();
    let usable: usize = if encoded_len <= logits.len() {
        encoded_len
    } else {
        logits.len()
    };
    let mut out: Vec<usize> = Vec::new();
    let mut prev: usize = blank_idx;
    let mut t: usize = 0;
    proof {
        assert(out@.map_values(|id: usize| id as int) + ctc_decode_from(
            frames,
            usable as int,
            0,
            blank_idx as int,
            blank_idx as int,
        ) =~= ctc_decode_spec(frames, encoded_len as int, blank_idx as int));
    }
    while t < usable
        invariant
            t <= usable,
            usable <= logits.len(),
            frames == logits.deep_view(),
            out@.map_values(|id: usize| id as int) + ctc_decode_from(
                frames,
                usable as int,
                t as int,
                prev as int,
                blank_idx as int,
            ) == ctc_decode_spec(frames, encoded_len as int, blank_idx as int),
        decreases usable - t,
    {
        proof {
            assert(frames[t as int] == logits@[t as int]@);
        }
        let row = &logits[t];
        let best: usize = if row.len() == 0 {
            blank_idx
        } else {
            frame_argmax(row)
        };
        proof {
            assert(best as int == chosen_index(frames[t as int], blank_idx as int));
        }
        let ghost old_out = out@;
        if best != blank_idx && best != prev {
            out.push(best);
            proof {
                assert(out@.map_values(|id: usize| id as int) =~= old_out.map_values(
                    |id: usize| id as int,
                ).push(best as int));
                assert(old_out.map_values(|id: usize| id as int).push(best as int)
                    + ctc_decode_from(
                    frames,
                    usable as int,
                    t + 1,
                    best as int,
                    blank_idx as int,
                ) =~= old_out.map_values(|id: usize| id as int) + (seq![best as int]
                    + ctc_decode_from(frames, usable as int, t + 1, best as int, blank_idx as int)));
            }
        }
        prev = best;
        t += 1;
    }
    proof {
        assert(ctc_decode_from(frames, usable as int, t as int, prev as int, blank_idx as int)
            =~= Seq::<int>::empty());
        assert(out@.map_values(|id: usize| id as int) + Seq::<int>::empty() =~= out@.map_values(
            |id: usize| id as int,
        ));
    }
    out
}

/// The concatenation of the vocabulary strings of the ids from index
/// `i` on; ids outside the vocabulary range are silently skipped.
pub open spec fn concat_tokens(ids: Seq<usize>, vocab: Seq<Seq<char>>, i: int) -> Seq<char>
    decreases ids.len() - i,
{
    if i < 0 || i >= ids.len() {
        Seq::empty()
    } else {
        let tok = if ids[i] < vocab.len() {
            vocab[ids[i] as int]
        } else {
            Seq::empty()
        };
        tok + concat_tokens(ids, vocab, i + 1)
    }
}

/// What an alphanumeric character is; the classification comes from
/// the host's Unicode tables and depends on the character alone.
pub uninterp spec fn is_alnum_char(c: char) -> bool;

/// Relies on char::is_alphanumeric: a pure classification of the
/// character by the Unicode Alphabetic and Number categories.
#[verifier::external_body]
fn char_is_alphanumeric(c: char) -> (r: bool)
    ensures
        r == is_alnum_char(c),
{
    c.is_alphanumeric()
}

/// A word character: alphanumeric or underscore.
pub open spec fn is_word_char(c: char) -> bool {
    is_alnum_char(c) || c == '_'
}

fn char_is_word(c: char) -> (r: bool)
    ensures
        r == is_word_char(c),
{
    char_is_alphanumeric(c) || c == '_'
}

/// The whitespace normalization of the decoded text from index `i` on.
/// Each whitespace character is dropped at the very start of the text,
/// kept as a single space before a word character, and dropped before
/// anything else (including at the end); other characters pass through.
pub open spec fn normalize_from(t: Seq<char>, i: int) -> Seq<char>
    decreases t.len() - i,
{
    if i < 0 || i >= t.len() {
        Seq::empty()
    } else {
        let head = if !is_space_char(t[i]) {
            seq![t[i]]
        } else if i == 0 {
            Seq::<char>::empty()
        } else if i + 1 < t.len() && is_word_char(t[i + 1]) {
            seq![' ']
        } else {
            Seq::<char>::empty()
        };
        head + normalize_from(t, i + 1)
    }
}

/// The three-rule spacing normalization: strip a space at the very
/// start, strip a space before a non-word character or at the end, and
/// collapse a space before a word character into a single space.
pub open spec fn normalize_spacing_spec(t: Seq<char>) -> Seq<char> {
    normalize_from(t, 0)
}

/// Applies the spacing normalization to a decoded text.
pub fn normalize_spacing(t: &str) -> (r: String)
    ensures
        r@ == normalize_spacing_spec(t@),
{
    let len = t.unicode_len();
    let mut out = String::new();
    let mut i: usize = 0;
    proof {
        assert(out@ + normalize_from(t@, 0) =~= normalize_from(t@, 0));
    }
    while i < len
        invariant
            i <= len,
            len == t@.len(),
            out@ + normalize_from(t@, i as int) == normalize_spacing_spec(t@),
        decreases len - i,
    {
        let ghost old_out = out@;
        let ghost head = if !is_space_char(t@[i as int]) {
            seq![t@[i as int]]
        } else if i == 0 {
            Seq::<char>::empty()
        } else if i + 1 < t@.len() && is_word_char(t@[i + 1]) {
            seq![' ']
        } else {
            Seq::<char>::empty()
        };
        let c = t.get_char(i);
        if !is_space(c) {
            let piece = t.substring_char(i, i + 1);
            proof {
                assert(piece@ =~= seq![t@[i as int]]);
            }
            out.append(piece);
        } else if i == 0 {
        } else if i + 1 < len && char_is_word(t.get_char(i + 1)) {
            out.append(" ");
            proof {
                reveal_strlit(" ");
                assert(" "@ =~= seq![' ']);
            }
        }
        proof {
            assert(out@ =~= old_out + head);
            assert(normalize_from(t@, i as int) == head + normalize_from(t@, i + 1));
            assert((old_out + head) + normalize_from(t@, i + 1) =~= old_out + (head
                + normalize_from(t@, i + 1)));
        }
        i += 1;
    }
    proof {
        assert(normalize_from(t@, i as int) =~= Seq::<char>::empty());
        assert(out@ + Seq::<char>::empty() =~= out@);
    }
    out
}

/// The text an id sequence decodes to: the vocabulary strings
/// concatenated, then spacing-normalized.
pub open spec fn decode_text_spec(ids: Seq<usize>, vocab: Seq<Seq<char>>) -> Seq<char> {
    normalize_spacing_spec(concat_tokens(ids, vocab, 0))
}

/// Maps a token-id sequence to text through the vocabulary and
/// normalizes spacing.
pub fn decode_token_ids_to_text(token_ids: &Vec<usize>, vocab: &Vec<String>) -> (r: String)
    ensures
        r@ == decode_text_spec(token_ids@, vocab.deep_view()),
{
    let ghost vv = vocab.deep_view();
    let mut concatenated = String::new();
    let mut i: usize = 0;
    proof {
        assert(concatenated@ + concat_tokens(token_ids@, vv, 0) =~= concat_tokens(
            token_ids@,
            vv,
            0,
        ));
    }
    while i < token_ids.len()
        invariant
            i <= token_ids.len(),
            vv == vocab.deep_view(),
            concatenated@ + concat_tokens(token_ids@, vv, i as int) == concat_tokens(
                token_ids@,
                vv,
                0,
            ),
        decreases token_ids.len() - i,
    {
        let ghost old_cat = concatenated@;
        let id = token_ids[i];
        if id < vocab.len() {
            proof {
                assert(vv[id as int] == vocab@[id as int]@);
            }
            concatenated.append(vocab[id].as_str());
        }
        proof {
            let tok = if token_ids@[i as int] < vv.len() {
                vv[token_ids@[i as int] as int]
            } else {
                Seq::<char>::empty()
            };
            assert(concatenated@ =~= old_cat + tok);
            assert((old_cat + tok) + concat_tokens(token_ids@, vv, i + 1) =~= old_cat + (tok
                + concat_tokens(token_ids@, vv, i + 1)));
        }
        i += 1;
    }
    proof {
        assert(concat_tokens(token_ids@, vv, i as int) =~= Seq::<char>::empty());
        assert(concatenated@ + Seq::<char>::empty() =~= concatenated@);
    }
    normalize_spacing(concatenated.as_str())
}

} // verus!
