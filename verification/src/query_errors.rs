//! Why a question cannot be answered, and how that is told.
use crate::errors::skinned_edit_error;
use crate::ids::{hyphenated, id_text, AssetId, NodeId};
use crate::text::{decimal, decimal_text, joined, joined3};
use vstd::prelude::*;

verus! {

/// Why a question cannot be answered.
#[derive(Clone, Copy, PartialEq, Eq, Structural, Debug)]
pub enum QueryError {
    NoCustomMaterial(AssetId),
    NoNode(NodeId),
    SkinnedNode(NodeId),
    NoMesh(NodeId),
    NotAMeshAsset(AssetId),
    NoAsset(AssetId),
    NoSelectionHandle(u32),
    NoMeshAsset(NodeId),
    NoTrack { clip: AssetId, track: usize },
    NoSkin(NodeId),
    EndNotMade(NodeId),
    RootNotMade(NodeId),
    NoChain,
}

/// The words of an answer that cannot be given.
pub open spec fn query_error_text(e: QueryError) -> Seq<char> {
    match e {
        QueryError::NoCustomMaterial(id) => "no custom material "@ + hyphenated(id.0),
        QueryError::NoNode(id) => "no node "@ + hyphenated(id.0),
        QueryError::SkinnedNode(id) => "node "@ + hyphenated(id.0)
            + " is skinned; call drop_skinning first"@,
        QueryError::NoMesh(id) => "node "@ + hyphenated(id.0) + " has no resolvable mesh"@,
        QueryError::NotAMeshAsset(id) => "asset "@ + hyphenated(id.0) + " is not a mesh"@,
        QueryError::NoAsset(id) => "no asset "@ + hyphenated(id.0),
        QueryError::NoSelectionHandle(id) => "no vertex-selection handle "@ + decimal(id as nat),
        QueryError::NoMeshAsset(id) => "node "@ + hyphenated(id.0)
            + " is not a Mesh / has no resolvable mesh asset"@,
        QueryError::NoTrack { clip, track } => "no track "@ + decimal(track as nat) + " in clip "@
            + hyphenated(clip.0),
        QueryError::NoSkin(id) => "node "@ + hyphenated(id.0) + " has no materialized skin"@,
        QueryError::EndNotMade(id) => "end_node "@ + hyphenated(id.0) + " not materialized"@,
        QueryError::RootNotMade(id) => "root_node "@ + hyphenated(id.0) + " not materialized"@,
        QueryError::NoChain =>
            "ik solve failed: chain not materialized or degenerate (zero-length bones / target at the root)"@,
    }
}

impl QueryError {
    /// The words of an answer that cannot be given.
    pub fn message(&self) -> (r: String)
        ensures
            r@ == query_error_text(*self),
    {
        match self {
            QueryError::NoCustomMaterial(id) => joined("no custom material ", &id_text(id.0)),
            QueryError::NoNode(id) => joined("no node ", &id_text(id.0)),
            QueryError::SkinnedNode(id) => skinned_edit_error(*id),
            QueryError::NoMesh(id) => joined3("node ", &id_text(id.0), " has no resolvable mesh"),
            QueryError::NotAMeshAsset(id) => joined3("asset ", &id_text(id.0), " is not a mesh"),
            QueryError::NoAsset(id) => joined("no asset ", &id_text(id.0)),
            QueryError::NoSelectionHandle(id) => joined(
                "no vertex-selection handle ",
                &decimal_text(*id as u64),
            ),
            QueryError::NoMeshAsset(id) => joined3(
                "node ",
                &id_text(id.0),
                " is not a Mesh / has no resolvable mesh asset",
            ),
            QueryError::NoTrack { clip, track } => {
                let front = joined3("no track ", &decimal_text(*track as u64), " in clip ");
                joined(&front, &id_text(clip.0))
            },
            QueryError::NoSkin(id) => joined3("node ", &id_text(id.0), " has no materialized skin"),
            QueryError::EndNotMade(id) => joined3(
                "end_node ",
                &id_text(id.0),
                " not materialized",
            ),
            QueryError::RootNotMade(id) => joined3(
                "root_node ",
                &id_text(id.0),
                " not materialized",
            ),
            QueryError::NoChain =>
                "ik solve failed: chain not materialized or degenerate (zero-length bones / target at the root)".to_owned(),
        }
    }
}

} // verus!
