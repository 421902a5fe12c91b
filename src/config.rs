//! The filter's configuration, fixed once before any line is read.
use vstd::prelude::*;

verus! {

/// Why a configuration or a line was refused.
#[derive(Debug, Clone, Copy, PartialEq, Eq, Structural)]
pub enum FilterError {
    /// Both a list of blocks to drop and a list of blocks to keep were given.
    ConflictingBlockLists,
    /// A copy header is not well-formed UTF-8, so it cannot be matched
    /// without regard to case.
    InvalidText,
}

pub struct Options {
    /// Copy blocks to drop.
    pub excluded_copy_blocks: Vec<String>,
    /// When not empty, the only copy blocks to keep.
    pub included_copy_blocks: Vec<String>,
    /// Drop large-object statements, but for `lo_create`.
    pub exclude_large_objects: bool,
    /// Schema that qualifies the block names.
    pub schema: String,
    /// Longest line that a reader must be able to hold, in MiB. A capacity
    /// hint only: the filter's decisions do not depend on it.
    pub buffersize_in_mb: usize,
}

impl Options {
    /// A drop list and a keep list cannot both be in force.
    pub open spec fn wf(&self) -> bool {
        !(self.excluded_copy_blocks@.len() > 0 && self.included_copy_blocks@.len() > 0)
    }

    /// Builds a configuration; refuses one with both block lists non-empty.
    pub fn new(
        excluded_copy_blocks: Vec<String>,
        included_copy_blocks: Vec<String>,
        exclude_large_objects: bool,
        schema: String,
        buffersize_in_mb: usize,
    ) -> (r: Result<Options, FilterError>)
        ensures
            r is Err <==> excluded_copy_blocks@.len() > 0 && included_copy_blocks@.len() > 0,
            r is Err ==> r->Err_0 == FilterError::ConflictingBlockLists,
            r is Ok ==> ({
                let o = r->Ok_0;
                &&& o.wf()
                &&& o.excluded_copy_blocks@ == excluded_copy_blocks@
                &&& o.included_copy_blocks@ == included_copy_blocks@
                &&& o.exclude_large_objects == exclude_large_objects
                &&& o.schema@ == schema@
                &&& o.buffersize_in_mb == buffersize_in_mb
            }),
    {
        if excluded_copy_blocks.len() > 0 && included_copy_blocks.len() > 0 {
            return Err(FilterError::ConflictingBlockLists);
        }
        Ok(Options {
            excluded_copy_blocks,
            included_copy_blocks,
            exclude_large_objects,
            schema,
            buffersize_in_mb,
        })
    }
}

} // verus!
