//! Which embedding models this build knows: semantic search is optional, and a build
//! without the model feature has none.
use vstd::prelude::*;

use crate::text::{chars_of, contains, has_str, lower_ascii, lower_seq};

verus! {

/// Whether this build can embed at all. This library is built without a model.
pub fn available() -> (r: bool)
    ensures
        !r,
{
    false
}

pub const DEFAULT_MODEL: &'static str = "bge-small-en-v1.5";

/// `(HuggingFace repo, dimensions, our id)` for a model name: MiniLM, the base or
/// large BGE model by name, and the small BGE model for anything else.
pub open spec fn model_for(name: Seq<char>) -> (Seq<char>, usize, Seq<char>) {
    let key = lower_seq(name);
    if contains(key, "minilm"@) {
        ("Xenova/all-MiniLM-L6-v2"@, 384, "all-minilm-l6-v2"@)
    } else if contains(key, "bge-base"@) {
        ("Xenova/bge-base-en-v1.5"@, 768, "bge-base-en-v1.5"@)
    } else if contains(key, "bge-large"@) {
        ("Xenova/bge-large-en-v1.5"@, 1024, "bge-large-en-v1.5"@)
    } else {
        ("Xenova/bge-small-en-v1.5"@, 384, "bge-small-en-v1.5"@)
    }
}

pub fn resolve(name: &str) -> (r: (&'static str, usize, &'static str))
    ensures
        (r.0@, r.1, r.2@) == model_for(name@),
{
    let v = chars_of(name);
    let key = lower_ascii(&v);
    if has_str(&key, "minilm") {
        ("Xenova/all-MiniLM-L6-v2", 384, "all-minilm-l6-v2")
    } else if has_str(&key, "bge-base") {
        ("Xenova/bge-base-en-v1.5", 768, "bge-base-en-v1.5")
    } else if has_str(&key, "bge-large") {
        ("Xenova/bge-large-en-v1.5", 1024, "bge-large-en-v1.5")
    } else {
        ("Xenova/bge-small-en-v1.5", 384, "bge-small-en-v1.5")
    }
}

} // verus!
