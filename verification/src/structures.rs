//! Data model of the pipeline: input documents, fetched per-item payloads,
//! the stacked batch tensor, and the two output record kinds.
use vstd::prelude::*;

verus! {

/// One input unit: an identifier and the URL of the image to embed.
#[derive(Clone, Debug)]
pub struct ImageDocument {
    pub id: i64,
    pub image_url: String,
}

/// One document after the fetch stage: either the raw image bytes or the
/// reason the fetch failed. The fetch itself is network I/O done by the
/// caller; this library decides everything that follows from its outcome.
#[derive(Debug)]
pub struct FetchedDocument {
    pub id: i64,
    pub data: Result<Vec<u8>, String>,
}

/// One output unit: an identifier and its embedding vector. Each element is
/// the bit pattern of one 32-bit IEEE-754 scalar of the model's output; the
/// caller converts at the boundary.
#[derive(Clone, Debug)]
pub struct EmbeddingResult {
    pub id: i64,
    pub embedding: Vec<u32>,
}

impl EmbeddingResult {
    pub fn new(id: i64, embedding: Vec<u32>) -> (r: EmbeddingResult)
        ensures
            r.id == id,
            r.embedding == embedding,
    {
        EmbeddingResult { id, embedding }
    }
}

/// One output unit recording why an item could not be embedded.
#[derive(Clone, Debug)]
pub struct EmbeddingFailure {
    pub id: i64,
    pub err: String,
}

/// The per-model image settings of the configuration file. Loading the file
/// is I/O done by the caller; the parsed values live here.
#[derive(Clone, Debug)]
pub struct ModelImage {
    pub name: String,
    pub cache_folder: String,
    pub onnx_folder: String,
    pub pretrained_model_folder: Option<String>,
    pub image_width: Option<usize>,
    pub image_height: Option<usize>,
}

/// Top-level configuration consumed at startup.
#[derive(Clone, Debug)]
pub struct Config {
    pub model: ModelImage,
}

/// All surviving pixel tensors of one batch call, stacked in order along a
/// leading dimension: `count` rows of `3 * side * side` bytes each.
#[derive(Debug)]
pub struct BatchTensor {
    pub data: Vec<u8>,
    pub count: usize,
    pub side: u32,
}

impl BatchTensor {
    /// The stacking invariant: the flat buffer holds exactly `count` rows.
    pub open spec fn wf(self) -> bool {
        self.data@.len() == self.count * crate::tensor_len(self.side as nat)
    }
}

/// What one batch-assembly call produces: the stacked tensor (absent when no
/// item survived preprocessing), the ids of the surviving items in stacking
/// order, and one failure record per dropped item.
#[derive(Debug)]
pub struct BatchOutcome {
    pub batch: Option<BatchTensor>,
    pub success_ids: Vec<i64>,
    pub failures: Vec<EmbeddingFailure>,
}

} // verus!
