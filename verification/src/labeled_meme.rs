use vstd::prelude::*;

verus! {

/// A meme whose label slots have all been filled in.
#[derive(Debug)]
pub struct LabeledMeme {
    pub image_uri: String,
    pub labels: Vec<String>,
}

} // verus!
