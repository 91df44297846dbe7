//! Resolution of the acoustic model's tensor bindings: exact name
//! match first, then shape-based fallback, failing only when no
//! candidate matches.

use vstd::prelude::*;
use vstd::string::*;

use crate::errors::{EngineError, SchemaSlot};
use crate::text::str_eq;

verus! {

/// Name and tensor rank of one graph input or output; the rank is
/// absent when the binding is not a plain tensor.
#[derive(Debug, Clone)]
pub struct TensorInfo {
    pub name: String,
    pub rank: Option<usize>,
}

impl View for TensorInfo {
    type V = (Seq<char>, Option<usize>);

    open spec fn view(&self) -> (Seq<char>, Option<usize>) {
        (self.name@, self.rank)
    }
}

impl DeepView for TensorInfo {
    type V = (Seq<char>, Option<usize>);

    open spec fn deep_view(&self) -> (Seq<char>, Option<usize>) {
        self.view()
    }
}

/// Index of the first binding with the given name at or after `i`, or
/// the length if there is none.
pub open spec fn find_named(
    infos: Seq<(Seq<char>, Option<usize>)>,
    target: Seq<char>,
    i: int,
) -> int
    decreases infos.len() - i,
{
    if i < 0 || i >= infos.len() {
        infos.len() as int
    } else if infos[i].0 == target {
        i
    } else {
        find_named(infos, target, i + 1)
    }
}

proof fn lemma_find_named_from(
    infos: Seq<(Seq<char>, Option<usize>)>,
    target: Seq<char>,
    i: int,
    k: int,
)
    requires
        0 <= i <= k <= infos.len(),
        forall|j: int| i <= j < k ==> (#[trigger] infos[j]).0 != target,
        k == infos.len() || infos[k].0 == target,
    ensures
        find_named(infos, target, i) == k,
    decreases k - i,
{
    if i < k {
        lemma_find_named_from(infos, target, i + 1, k);
    }
}

/// Index of the first binding with the given tensor rank at or after
/// `i`, or the length if there is none.
pub open spec fn find_ranked(infos: Seq<(Seq<char>, Option<usize>)>, rank: usize, i: int) -> int
    decreases infos.len() - i,
{
    if i < 0 || i >= infos.len() {
        infos.len() as int
    } else if infos[i].1 == Some(rank) {
        i
    } else {
        find_ranked(infos, rank, i + 1)
    }
}

proof fn lemma_find_ranked_from(infos: Seq<(Seq<char>, Option<usize>)>, rank: usize, i: int, k: int)
    requires
        0 <= i <= k <= infos.len(),
        forall|j: int| i <= j < k ==> (#[trigger] infos[j]).1 != Some(rank),
        k == infos.len() || infos[k].1 == Some(rank),
    ensures
        find_ranked(infos, rank, i) == k,
    decreases k - i,
{
    if i < k {
        lemma_find_ranked_from(infos, rank, i + 1, k);
    }
}

/// Index of the first binding named either `a` or `b` at or after `i`,
/// or the length if there is none.
pub open spec fn find_either(
    infos: Seq<(Seq<char>, Option<usize>)>,
    a: Seq<char>,
    b: Seq<char>,
    i: int,
) -> int
    decreases infos.len() - i,
{
    if i < 0 || i >= infos.len() {
        infos.len() as int
    } else if infos[i].0 == a || infos[i].0 == b {
        i
    } else {
        find_either(infos, a, b, i + 1)
    }
}

proof fn lemma_find_either_from(
    infos: Seq<(Seq<char>, Option<usize>)>,
    a: Seq<char>,
    b: Seq<char>,
    i: int,
    k: int,
)
    requires
        0 <= i <= k <= infos.len(),
        forall|j: int| i <= j < k ==> (#[trigger] infos[j]).0 != a && infos[j].0 != b,
        k == infos.len() || infos[k].0 == a || infos[k].0 == b,
    ensures
        find_either(infos, a, b, i) == k,
    decreases k - i,
{
    if i < k {
        lemma_find_either_from(infos, a, b, i + 1, k);
    }
}

/// The name resolved for an input slot: the first binding with the
/// exact name, else the first binding with the expected rank.
pub open spec fn resolve_input_spec(
    infos: Seq<(Seq<char>, Option<usize>)>,
    name: Seq<char>,
    rank: usize,
) -> Option<Seq<char>> {
    let kn = find_named(infos, name, 0);
    if kn < infos.len() {
        Some(infos[kn].0)
    } else {
        let kr = find_ranked(infos, rank, 0);
        if kr < infos.len() {
            Some(infos[kr].0)
        } else {
            None
        }
    }
}

/// The name resolved for the logits output: the first output named
/// `log_probs` or `logits`, else the first output of the graph.
pub open spec fn resolve_logits_spec(outs: Seq<(Seq<char>, Option<usize>)>) -> Option<Seq<char>> {
    let ke = find_either(outs, "log_probs"@, "logits"@, 0);
    if ke < outs.len() {
        Some(outs[ke].0)
    } else if outs.len() > 0 {
        Some(outs[0].0)
    } else {
        None
    }
}

/// Resolves an input slot by exact name, falling back to the first
/// binding of the expected rank.
fn resolve_input(infos: &Vec<TensorInfo>, name: &str, rank: usize) -> (r: Option<String>)
    ensures
        match resolve_input_spec(infos.deep_view(), name@, rank) {
            Some(n) => r matches Some(s) && s@ == n,
            None => r is None,
        },
{
    let ghost dv = infos.deep_view();
    let len = infos.len();
    let mut i: usize = 0;
    while i < len
        invariant
            i <= len,
            len == infos@.len(),
            dv == infos.deep_view(),
            forall|j: int| 0 <= j < i ==> (#[trigger] dv[j]).0 != name@,
        decreases len - i,
    {
        proof {
            assert(dv[i as int] == infos@[i as int].deep_view());
        }
        if str_eq(infos[i].name.as_str(), name) {
            proof {
                lemma_find_named_from(dv, name@, 0, i as int);
            }
            return Some(infos[i].name.clone());
        }
        i += 1;
    }
    proof {
        lemma_find_named_from(dv, name@, 0, len as int);
    }
    let mut k: usize = 0;
    while k < len
        invariant
            k <= len,
            len == infos@.len(),
            dv == infos.deep_view(),
            find_named(dv, name@, 0) == len,
            forall|j: int| 0 <= j < k ==> (#[trigger] dv[j]).1 != Some(rank),
        decreases len - k,
    {
        proof {
            assert(dv[k as int] == infos@[k as int].deep_view());
        }
        let matches_rank = match infos[k].rank {
            Some(q) => q == rank,
            None => false,
        };
        if matches_rank {
            proof {
                lemma_find_ranked_from(dv, rank, 0, k as int);
            }
            return Some(infos[k].name.clone());
        }
        k += 1;
    }
    proof {
        lemma_find_ranked_from(dv, rank, 0, len as int);
    }
    None
}

/// Resolves the features input (`features`, else the rank-3 input).
pub fn resolve_features_input(inputs: &Vec<TensorInfo>) -> (r: Result<String, EngineError>)
    ensures
        match resolve_input_spec(inputs.deep_view(), "features"@, 3) {
            Some(n) => r matches Ok(s) && s@ == n,
            None => r matches Err(EngineError::SchemaResolutionFailed(SchemaSlot::FeaturesInput)),
        },
{
    match resolve_input(inputs, "features", 3) {
        Some(s) => Ok(s),
        None => Err(EngineError::SchemaResolutionFailed(SchemaSlot::FeaturesInput)),
    }
}

/// Resolves the frame-count input (`feature_lengths`, else the rank-1
/// input).
pub fn resolve_feature_lengths_input(inputs: &Vec<TensorInfo>) -> (r: Result<String, EngineError>)
    ensures
        match resolve_input_spec(inputs.deep_view(), "feature_lengths"@, 1) {
            Some(n) => r matches Ok(s) && s@ == n,
            None => r matches Err(
                EngineError::SchemaResolutionFailed(SchemaSlot::FeatureLengthsInput),
            ),
        },
{
    match resolve_input(inputs, "feature_lengths", 1) {
        Some(s) => Ok(s),
        None => Err(EngineError::SchemaResolutionFailed(SchemaSlot::FeatureLengthsInput)),
    }
}

/// Resolves the logits output (`log_probs` or `logits`, else the first
/// output).
pub fn resolve_logits_output(outputs: &Vec<TensorInfo>) -> (r: Result<String, EngineError>)
    ensures
        match resolve_logits_spec(outputs.deep_view()) {
            Some(n) => r matches Ok(s) && s@ == n,
            None => r matches Err(EngineError::SchemaResolutionFailed(SchemaSlot::LogitsOutput)),
        },
{
    let ghost dv = outputs.deep_view();
    let len = outputs.len();
    let mut i: usize = 0;
    while i < len
        invariant
            i <= len,
            len == outputs@.len(),
            dv == outputs.deep_view(),
            forall|j: int|
                0 <= j < i ==> (#[trigger] dv[j]).0 != "log_probs"@ && dv[j].0 != "logits"@,
        decreases len - i,
    {
        proof {
            assert(dv[i as int] == outputs@[i as int].deep_view());
        }
        if str_eq(outputs[i].name.as_str(), "log_probs") || str_eq(
            outputs[i].name.as_str(),
            "logits",
        ) {
            proof {
                lemma_find_either_from(dv, "log_probs"@, "logits"@, 0, i as int);
            }
            return Ok(outputs[i].name.clone());
        }
        i += 1;
    }
    proof {
        lemma_find_either_from(dv, "log_probs"@, "logits"@, 0, len as int);
    }
    if len > 0 {
        proof {
            assert(dv[0] == outputs@[0].deep_view());
        }
        Ok(outputs[0].name.clone())
    } else {
        Err(EngineError::SchemaResolutionFailed(SchemaSlot::LogitsOutput))
    }
}

} // verus!
