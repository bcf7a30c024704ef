//! The material capability injected into the specializer, and the per-frame
//! material data the queuer reads.

use vstd::prelude::*;
use crate::config::{ConfigModel, PipelineConfig};
use crate::error::ConfigError;
use crate::key::CacheKey;

verus! {

/// How a material's alpha channel is interpreted.
#[derive(PartialEq, Eq, Structural, Clone, Copy, Debug)]
pub enum AlphaMode {
    /// Fully opaque; drawn in the opaque phase.
    Opaque,
    /// Alpha-tested against a cutoff; drawn in the alpha-mask phase.
    Mask,
    /// Alpha-blended; never drawn in the prepass.
    Blend,
}

/// A material capability: the hook a material implementation gets to adjust
/// the derived configuration after the common specialization ran.
///
/// The hook must behave as its own `hook_spec` says; an implementation proves
/// that when it implements the trait. It may rewrite the configuration or
/// fail, and its failure is propagated per drawable.
pub trait Material: Sized {
    /// What the hook returns for a given configuration and key.
    spec fn hook_spec(&self, config: ConfigModel, key: CacheKey) -> Result<
        ConfigModel,
        ConfigError,
    >;

    /// Runs the material's specialization hook.
    fn specialize_hook(&self, config: PipelineConfig, key: &CacheKey) -> (r: Result<
        PipelineConfig,
        ConfigError,
    >)
        ensures
            match r {
                Ok(c) => self.hook_spec(config@, *key) == Ok::<ConfigModel, ConfigError>(c@),
                Err(e) => self.hook_spec(config@, *key) == Err::<ConfigModel, ConfigError>(e),
            },
    ;
}

/// A material with no specialization of its own: the hook keeps the derived
/// configuration unchanged and never fails.
#[derive(PartialEq, Eq, Structural, Clone, Copy, Debug)]
pub struct BasicPrepassMaterial;

impl Material for BasicPrepassMaterial {
    open spec fn hook_spec(&self, config: ConfigModel, key: CacheKey) -> Result<
        ConfigModel,
        ConfigError,
    > {
        Ok(config)
    }

    fn specialize_hook(&self, config: PipelineConfig, key: &CacheKey) -> (r: Result<
        PipelineConfig,
        ConfigError,
    >) {
        Ok(config)
    }
}

/// The render-side data of one prepared material the queuer reads.
#[derive(PartialEq, Eq, Structural, Clone, Copy, Debug)]
pub struct PreparedMaterial {
    /// The material's opaque sub-key, part of the cache key.
    pub subkey: u64,
    /// How the material's alpha channel is interpreted.
    pub alpha_mode: AlphaMode,
    /// Static bias added to the view-space sort distance, in the same
    /// fixed-point scale the embedding renderer uses for distances.
    pub depth_bias: i64,
}

} // verus!
