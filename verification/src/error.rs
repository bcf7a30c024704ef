//! Errors of pipeline specialization.

use vstd::prelude::*;
use crate::vertex::VertexAttributeKind;

verus! {

/// Why a pipeline configuration could not be produced for a key.
///
/// Every variant is recoverable per drawable: the queuer reports it and skips
/// the drawable for the frame.
#[derive(PartialEq, Eq, Structural, Clone, Copy, Debug)]
pub enum ConfigError {
    /// The vertex layout does not carry an attribute the key requires.
    MissingVertexAttribute(VertexAttributeKind),
    /// The material's specialization hook rejected the configuration,
    /// with a material-defined code.
    MaterialHook(u64),
}

impl ConfigError {
    /// A short description for the embedding renderer's log.
    pub fn describe(&self) -> String {
        match self {
            ConfigError::MissingVertexAttribute(kind) => {
                match kind {
                    VertexAttributeKind::Position => "missing vertex attribute: position".to_string(),
                    VertexAttributeKind::Uv0 => "missing vertex attribute: uv0".to_string(),
                    VertexAttributeKind::Normal => "missing vertex attribute: normal".to_string(),
                    VertexAttributeKind::Tangent => "missing vertex attribute: tangent".to_string(),
                    VertexAttributeKind::JointIndex => "missing vertex attribute: joint index".to_string(),
                    VertexAttributeKind::JointWeight => "missing vertex attribute: joint weight".to_string(),
                }
            }
            ConfigError::MaterialHook(_) => "material specialization hook failed".to_string(),
        }
    }
}

} // verus!
