//! The configuration and request/response records the orchestration layer
//! passes around, and the accessors over them. State is explicit: the
//! configuration travels as a value, never as hidden process-wide state.

use vstd::prelude::*;
use vstd::pervasive::unreached;

verus! {

/// Runtime configuration handed in at initialization.
#[derive(Debug, Clone)]
pub struct CanisterConfig {
    /// API key for the prompt-enhancement service.
    pub deepseek_api_key: String,
    /// Optional API key for the image-generation service.
    pub replicate_api_key: Option<String>,
    /// Endpoint of the proof-ledger metagraph.
    pub constellation_metagraph_url: String,
}

/// Descriptive metadata for a generated work.
#[derive(Debug, Clone)]
pub struct IPMetadata {
    pub title: String,
    pub description: String,
    pub tags: Vec<String>,
}

/// A generation request.
#[derive(Debug, Clone)]
pub struct GenerationInput {
    pub prompt: String,
    pub metadata: IPMetadata,
}

/// The outcome of one generate-and-register flow.
#[derive(Debug, Clone)]
pub struct GenerationOutput {
    pub image_url: String,
    pub content_hash: String,
    pub story_ip_id: String,
    pub story_tx_hash: String,
    pub story_nft_contract: String,
    pub story_token_id: u64,
    pub constellation_tx_hash: String,
    pub ai_model_id: String,
}

impl Default for GenerationOutput {
    /// All fields empty or zero.
    fn default() -> (r: Self)
        ensures
            r.image_url@ == Seq::<char>::empty(),
            r.content_hash@ == Seq::<char>::empty(),
            r.story_ip_id@ == Seq::<char>::empty(),
            r.story_tx_hash@ == Seq::<char>::empty(),
            r.story_nft_contract@ == Seq::<char>::empty(),
            r.story_token_id == 0,
            r.constellation_tx_hash@ == Seq::<char>::empty(),
            r.ai_model_id@ == Seq::<char>::empty(),
    {
        GenerationOutput {
            image_url: String::new(),
            content_hash: String::new(),
            story_ip_id: String::new(),
            story_tx_hash: String::new(),
            story_nft_contract: String::new(),
            story_token_id: 0,
            constellation_tx_hash: String::new(),
            ai_model_id: String::new(),
        }
    }
}

/// The configuration, which must have been supplied; asking before
/// initialization is a caller error ruled out up front.
pub fn get_config(config: Option<CanisterConfig>) -> (r: CanisterConfig)
    requires
        config is Some,
    ensures
        r == config->Some_0,
{
    match config {
        Some(c) => c,
        None => unreached(),
    }
}

/// The prompt-enhancement API key out of the supplied configuration.
pub fn get_deepseek_api_key(config: &Option<CanisterConfig>) -> (r: String)
    requires
        config is Some,
    ensures
        r@ == config->Some_0.deepseek_api_key@,
{
    match config {
        Some(c) => c.deepseek_api_key.clone(),
        None => unreached(),
    }
}

} // verus!
