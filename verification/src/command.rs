//! Requests a world answers, and its answers.

use vstd::prelude::*;
use vstd::std_specs::convert::FromSpecImpl;

use crate::block_at::BatWorld;
use crate::world_pos::WorldPos;

verus! {

/// A request to read or write the blocks of a world.
#[derive(Debug, PartialEq, Eq)]
pub enum WorldRequest {
    /// Read the block at a position.
    GetBlock(WorldPos),
    /// Write a block.
    SetBlock(BatWorld),
    /// Read the blocks at several positions.
    GetBlockBulk(Vec<WorldPos>),
    /// Write several blocks, in order.
    SetBlockBulk(Vec<BatWorld>),
}

/// A read of the blocks of a world.
#[derive(Debug, PartialEq, Eq)]
pub enum WorldQuery {
    /// Read the block at a position.
    GetBlock(WorldPos),
    /// Read the blocks at several positions.
    GetBlockBulk(Vec<WorldPos>),
}

/// Anything a world is asked: a request or a query.
#[derive(Debug, PartialEq, Eq)]
pub enum WorldCommand {
    Request(WorldRequest),
    Query(WorldQuery),
}

impl FromSpecImpl<WorldRequest> for WorldCommand {
    open spec fn obeys_from_spec() -> bool {
        true
    }

    open spec fn from_spec(v: WorldRequest) -> Self {
        WorldCommand::Request(v)
    }
}

impl From<WorldRequest> for WorldCommand {
    fn from(value: WorldRequest) -> (r: Self) {
        Self::Request(value)
    }
}

impl FromSpecImpl<WorldQuery> for WorldCommand {
    open spec fn obeys_from_spec() -> bool {
        true
    }

    open spec fn from_spec(v: WorldQuery) -> Self {
        WorldCommand::Query(v)
    }
}

impl From<WorldQuery> for WorldCommand {
    fn from(value: WorldQuery) -> (r: Self) {
        Self::Query(value)
    }
}

/// A world's answer to a request.
#[derive(Debug, PartialEq, Eq)]
pub enum WorldResponse {
    /// The request was malformed.
    Invalid { reason: InvalidReason },
    /// The request could not be served.
    Failure { reason: FailureReason },
    /// The block read, or the block replaced by a write.
    ReturnBlock(BatWorld),
    /// The blocks read, or the blocks replaced by the writes, in request order.
    ReturnBlockBulk(Vec<BatWorld>),
}

/// Why a request was malformed.
#[derive(Debug, PartialEq, Eq, Structural, Clone, Copy)]
pub enum InvalidReason {
    /// A bulk request named no block.
    EmptyBlockBulkRequest,
}

/// Why a request could not be served.
#[derive(Debug, PartialEq, Eq, Structural, Clone, Copy)]
pub enum FailureReason {
    /// A block of the request lies in a chunk that is not resident.
    ChunkNotInMemory,
}

} // verus!
