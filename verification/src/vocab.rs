//! The vocabulary: a dense mapping from token id to token string, built
//! from a text of `token id` lines, with the reserved blank token and
//! the word-boundary marker translated to a literal space at load time.

use vstd::prelude::*;
use vstd::string::*;

use crate::errors::EngineError;
use crate::text::{
    find_last_char, lines_spec, parse_usize, parse_usize_spec, split_lines, str_eq,
    str_rfind_char, trim_end_spec, trim_end_str, trim_spec, trim_str,
};

verus! {

/// One parsed vocabulary line.
pub ghost enum VocabLineV {
    /// A blank line, skipped.
    Skip,
    /// A well-formed `token id` pair; the token already carries the
    /// boundary-marker replacement.
    Entry { id: usize, token: Seq<char>, is_blank: bool },
    /// No space separates a token from an id.
    BadLine,
    /// The id does not parse as an unsigned number the dense table can
    /// index.
    BadId,
}

/// The word-boundary marker replaced by a literal space, character by
/// character.
pub open spec fn replace_boundary(tok: Seq<char>) -> Seq<char> {
    Seq::new(
        tok.len(),
        |i: int|
            if tok[i] == '\u{2581}' {
                ' '
            } else {
                tok[i]
            },
    )
}

/// How one line of the vocabulary file parses: trailing whitespace is
/// trimmed, blank lines are skipped, the split is at the last space,
/// and the id is the decimal value of the trimmed right-hand side.
pub open spec fn parse_vocab_line_spec(line: Seq<char>) -> VocabLineV {
    let t = trim_end_spec(line);
    if t.len() == 0 {
        VocabLineV::Skip
    } else {
        let k = find_last_char(t, ' ');
        if k < 0 {
            VocabLineV::BadLine
        } else {
            let token = t.subrange(0, k);
            let id_str = t.subrange(k + 1, t.len() as int);
            match parse_usize_spec(trim_spec(id_str)) {
                Some(v) => if v < usize::MAX {
                    VocabLineV::Entry {
                        id: v as usize,
                        token: replace_boundary(token),
                        is_blank: token == "<blk>"@,
                    }
                } else {
                    VocabLineV::BadId
                },
                None => VocabLineV::BadId,
            }
        }
    }
}

/// Scan state while reading the file: the entries in order, the
/// largest id seen, and the blank id (the last `<blk>` line wins).
pub ghost struct VocabScanV {
    pub entries: Seq<(usize, Seq<char>)>,
    pub max_id: usize,
    pub blank: Option<usize>,
}

/// What vocabulary parsing yields.
pub ghost enum VocabResultV {
    Parsed { vocab: Seq<Seq<char>>, blank: usize },
    BadLine { line: Seq<char> },
    BadId { line: Seq<char> },
    NoBlank,
}

/// The dense table of the given length: every id maps to the token of
/// its last entry, absent ids map to the empty string.
pub open spec fn dense_vocab(entries: Seq<(usize, Seq<char>)>, len: int) -> Seq<Seq<char>>
    recommends
        len >= 0,
    decreases entries.len(),
{
    if entries.len() == 0 {
        Seq::new(len as nat, |i: int| Seq::<char>::empty())
    } else {
        let d = dense_vocab(entries.drop_last(), len);
        let e = entries.last();
        if (e.0 as int) < len {
            d.update(e.0 as int, e.1)
        } else {
            d
        }
    }
}

/// Folds the lines from index `i` on over the scan state; the first
/// malformed line decides the error, and a missing blank token is
/// reported only after every line was read.
pub open spec fn vocab_fold(lines: Seq<Seq<char>>, i: int, st: VocabScanV) -> VocabResultV
    decreases lines.len() - i,
{
    if i < 0 || i >= lines.len() {
        match st.blank {
            Some(b) => VocabResultV::Parsed {
                vocab: dense_vocab(st.entries, st.max_id + 1),
                blank: b,
            },
            None => VocabResultV::NoBlank,
        }
    } else {
        match parse_vocab_line_spec(lines[i]) {
            VocabLineV::Skip => vocab_fold(lines, i + 1, st),
            VocabLineV::Entry { id, token, is_blank } => vocab_fold(
                lines,
                i + 1,
                VocabScanV {
                    entries: st.entries.push((id, token)),
                    max_id: if id > st.max_id {
                        id
                    } else {
                        st.max_id
                    },
                    blank: if is_blank {
                        Some(id)
                    } else {
                        st.blank
                    },
                },
            ),
            VocabLineV::BadLine => VocabResultV::BadLine { line: trim_end_spec(lines[i]) },
            VocabLineV::BadId => VocabResultV::BadId { line: trim_end_spec(lines[i]) },
        }
    }
}

/// The vocabulary a text describes.
pub open spec fn parse_vocab_spec(content: Seq<char>) -> VocabResultV {
    vocab_fold(
        lines_spec(content),
        0,
        VocabScanV { entries: Seq::empty(), max_id: 0, blank: None },
    )
}

/// Replaces each word-boundary marker in a token by a literal space.
fn replace_boundary_marker(tok: &str) -> (r: String)
    ensures
        r@ == replace_boundary(tok@),
{
    let len = tok.unicode_len();
    let mut out = String::new();
    let mut j: usize = 0;
    while j < len
        invariant
            j <= len,
            len == tok@.len(),
            out@ =~= replace_boundary(tok@).subrange(0, j as int),
        decreases len - j,
    {
        let ghost old_out = out@;
        let c = tok.get_char(j);
        if c == '\u{2581}' {
            out.append(" ");
            proof {
                reveal_strlit(" ");
            }
        } else {
            let piece = tok.substring_char(j, j + 1);
            proof {
                assert(piece@ =~= seq![tok@[j as int]]);
            }
            out.append(piece);
        }
        proof {
            assert(out@ =~= replace_boundary(tok@).subrange(0, j + 1));
        }
        j += 1;
    }
    proof {
        assert(replace_boundary(tok@).subrange(0, len as int) =~= replace_boundary(tok@));
    }
    out
}

/// Parses a vocabulary text into the dense id-to-token table and the
/// blank id.
pub fn parse_vocab_content(content: &str) -> (r: Result<(Vec<String>, usize), EngineError>)
    ensures
        match parse_vocab_spec(content@) {
            VocabResultV::Parsed { vocab, blank } => (r matches Ok(p) && p.0.deep_view() == vocab
                && p.1 == blank),
            VocabResultV::BadLine { line } => (r matches Err(EngineError::InvalidVocabLine(l))
                && l@ == line),
            VocabResultV::BadId { line } => (r matches Err(EngineError::InvalidVocabId(l)) && l@
                == line),
            VocabResultV::NoBlank => r matches Err(EngineError::MissingBlankToken),
        },
{
    let lines = split_lines(content);
    let ghost ls = lines.deep_view();
    let mut entries: Vec<(usize, String)> = Vec::new();
    let mut max_id: usize = 0;
    let mut blank: Option<usize> = None;
    let mut i: usize = 0;
    proof {
        assert(entries.deep_view() =~= Seq::<(usize, Seq<char>)>::empty());
    }
    while i < lines.len()
        invariant
            i <= lines.len(),
            ls == lines.deep_view(),
            ls == lines_spec(content@),
            max_id < usize::MAX,
            parse_vocab_spec(content@) == vocab_fold(
                ls,
                i as int,
                VocabScanV { entries: entries.deep_view(), max_id: max_id, blank: blank },
            ),
        decreases lines.len() - i,
    {
        let ghost st = VocabScanV { entries: entries.deep_view(), max_id: max_id, blank: blank };
        let line: &str = lines[i];
        proof {
            assert(ls[i as int] == lines@[i as int]@);
        }
        let t = trim_end_str(line);
        if t.unicode_len() == 0 {
            proof {
                assert(parse_vocab_line_spec(line@) is Skip);
            }
        } else {
            match str_rfind_char(t, ' ') {
                None => {
                    proof {
                        assert(parse_vocab_line_spec(line@) is BadLine);
                    }
                    return Err(EngineError::InvalidVocabLine(String::from_str(t)));
                },
                Some(k) => {
                    let token_str = t.substring_char(0, k);
                    let id_str = t.substring_char(k + 1, t.unicode_len());
                    match parse_usize(trim_str(id_str)) {
                        None => {
                            proof {
                                assert(parse_vocab_line_spec(line@) is BadId);
                            }
                            return Err(EngineError::InvalidVocabId(String::from_str(t)));
                        },
                        Some(v) => {
                            if v == usize::MAX {
                                proof {
                                    assert(parse_vocab_line_spec(line@) is BadId);
                                }
                                return Err(EngineError::InvalidVocabId(String::from_str(t)));
                            }
                            let is_blank = str_eq(token_str, "<blk>");
                            let replaced = replace_boundary_marker(token_str);
                            proof {
                                assert(parse_vocab_line_spec(line@) == VocabLineV::Entry {
                                    id: v,
                                    token: replaced@,
                                    is_blank: is_blank,
                                });
                            }
                            let ghost old_entries = entries.deep_view();
                            entries.push((v, replaced));
                            if is_blank {
                                blank = Some(v);
                            }
                            if v > max_id {
                                max_id = v;
                            }
                            proof {
                                assert(entries.deep_view() =~= old_entries.push((v, replaced@)));
                            }
                        },
                    }
                },
            }
        }
        i += 1;
    }
    match blank {
        None => Err(EngineError::MissingBlankToken),
        Some(b) => {
            let ghost final_entries = entries.deep_view();
            let n = max_id + 1;
            let mut vocab: Vec<String> = Vec::new();
            let mut j: usize = 0;
            while j < n
                invariant
                    j <= n,
                    vocab@.len() == j,
                    forall|m: int| 0 <= m < j ==> #[trigger] vocab@[m]@ =~= Seq::<char>::empty(),
                decreases n - j,
            {
                vocab.push(String::new());
                j += 1;
            }
            proof {
                assert forall|m: int|
                    0 <= m < n implies vocab.deep_view()[m] =~= Seq::<char>::empty() by {
                    assert(vocab.deep_view()[m] == vocab@[m]@);
                }
                assert(final_entries.subrange(0, 0) =~= Seq::<(usize, Seq<char>)>::empty());
                assert(dense_vocab(final_entries.subrange(0, 0), n as int) =~= vocab.deep_view());
            }
            let mut e: usize = 0;
            while e < entries.len()
                invariant
                    e <= entries.len(),
                    final_entries == entries.deep_view(),
                    vocab@.len() == n,
                    n == max_id + 1,
                    vocab.deep_view() == dense_vocab(final_entries.subrange(0, e as int), n as int),
                decreases entries.len() - e,
            {
                let ghost pre = final_entries.subrange(0, e as int);
                let ghost post = final_entries.subrange(0, e + 1);
                proof {
                    assert(post.drop_last() =~= pre);
                    assert(final_entries[e as int] == (entries@[e as int].0, entries@[e as int].1@));
                }
                let id = entries[e].0;
                if id < vocab.len() {
                    let ghost old_dv = vocab.deep_view();
                    let tok = entries[e].1.clone();
                    vocab[id] = tok;
                    proof {
                        assert forall|m: int| 0 <= m < n implies vocab.deep_view()[m] == old_dv
                            .update(id as int, entries@[e as int].1@)[m] by {
                            assert(vocab.deep_view()[m] == vocab@[m]@);
                        }
                        assert(vocab.deep_view() =~= old_dv.update(
                            id as int,
                            entries@[e as int].1@,
                        ));
                    }
                }
                proof {
                    assert(vocab.deep_view() =~= dense_vocab(post, n as int));
                }
                e += 1;
            }
            proof {
                assert(final_entries.subrange(0, final_entries.len() as int) =~= final_entries);
            }
            Ok((vocab, b))
        },
    }
}

} // verus!
