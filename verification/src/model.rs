//! Model management decisions.
//!
//! The recognizer model is a file in the user's cache, downloaded once. The
//! filesystem probing and the download itself are I/O and live with the
//! binary; the decisions — which name is the default model, whether a
//! download arrived whole — are here.

use vstd::prelude::*;
use crate::textutil::str_eq;

verus! {

/// The default model's file name.
pub fn default_model_name() -> (r: &'static str)
    ensures
        r@ == "ggml-small.en-q5_1.bin"@,
{
    "ggml-small.en-q5_1.bin"
}

/// Whether a model path's file name selects the default model: the default
/// name itself, or no name at all.
pub fn is_default_model_name(name: &str) -> (r: bool)
    ensures
        r == (name@ == "ggml-small.en-q5_1.bin"@ || name@.len() == 0),
{
    if name.unicode_len() == 0 {
        true
    } else {
        str_eq(name, "ggml-small.en-q5_1.bin")
    }
}

/// Whether a download of an announced size arrived whole. A server that
/// announced no size is taken at its word.
pub fn download_is_complete(total_size: u64, downloaded: u64) -> (r: bool)
    ensures
        r == (total_size == 0 || downloaded == total_size),
{
    total_size == 0 || downloaded == total_size
}

} // verus!
