//! The block collection: a sequence of [`TensorBlock`] keyed by the rows of
//! an outer [`Labels`] instance, one block per key row. Bulk operations,
//! like axis migration, are forwarded to every block with all-or-nothing
//! semantics: either every block is transformed, or the map is unchanged
//! (on failure the consumed map is dropped and only the error remains).

use std::sync::Arc;

use vstd::prelude::*;

use crate::blocks::{can_migrate, has_matching_component, tensor_migrated, TensorBlock};
use crate::error::Error;
use crate::labels::Labels;

verus! {

/// A set of blocks, each identified by one row of the `keys` labels.
#[derive(Debug)]
pub struct TensorMap {
    keys: Arc<Labels>,
    blocks: Vec<TensorBlock>,
}

impl TensorMap {
    /// The labels keying the blocks.
    pub closed spec fn spec_keys(&self) -> Arc<Labels> {
        self.keys
    }

    /// The blocks, in key-row order.
    pub closed spec fn spec_blocks(&self) -> Seq<TensorBlock> {
        self.blocks@
    }

    /// Validity: one block per key row, every block valid.
    pub open spec fn wf(&self) -> bool {
        &&& self.spec_keys()@.count() == self.spec_blocks().len()
        &&& forall|i: int| 0 <= i < self.spec_blocks().len() ==> (
        #[trigger] self.spec_blocks()[i]).wf()
    }

    /// Create a new `TensorMap` holding one block per row of `keys`.
    pub fn new(keys: Arc<Labels>, blocks: Vec<TensorBlock>) -> (r: Result<TensorMap, Error>)
        requires
            forall|i: int| 0 <= i < blocks@.len() ==> (#[trigger] blocks@[i]).wf(),
        ensures
            r.is_ok() <==> keys@.count() == blocks@.len(),
            r matches Ok(t) ==> t.spec_keys() == keys && t.spec_blocks() == blocks@ && t.wf(),
            r matches Err(e) ==> (e matches Error::WrongBlocksCount { blocks: b, keys: k } && b
                == blocks@.len() && k as int == keys@.count() as int),
    {
        if blocks.len() != keys.count() {
            return Err(Error::WrongBlocksCount { blocks: blocks.len(), keys: keys.count() });
        }
        Ok(TensorMap { keys, blocks })
    }

    /// The labels keying the blocks.
    pub fn keys(&self) -> (r: &Arc<Labels>)
        ensures
            *r == self.spec_keys(),
    {
        &self.keys
    }

    /// How many blocks the map holds.
    pub fn blocks_count(&self) -> (r: usize)
        ensures
            r == self.spec_blocks().len(),
    {
        self.blocks.len()
    }

    /// The block at the given position, which is identified by the key row
    /// at the same position.
    pub fn block_by_id(&self, id: usize) -> (r: &TensorBlock)
        requires
            id < self.spec_blocks().len(),
        ensures
            *r == self.spec_blocks()[id as int],
    {
        &self.blocks[id]
    }

    /// Move the named component into the properties, in every block of the
    /// map. Either every block is migrated, or the first failure is
    /// returned and the consumed map is discarded whole.
    pub fn components_to_properties(self, dimensions: &Vec<String>) -> (r: Result<
        TensorMap,
        Error,
    >)
        requires
            self.wf(),
        ensures
            dimensions@.len() == 0 ==> (r matches Ok(t) && t.spec_keys() == self.spec_keys()
                && t.spec_blocks() == self.spec_blocks()),
            dimensions@.len() > 0 ==> (r.is_ok() <==> forall|i: int|
                0 <= i < self.spec_blocks().len() ==> can_migrate(
                    (#[trigger] self.spec_blocks()[i]).spec_values(),
                    dimensions.deep_view(),
                )),
            dimensions@.len() > 0 ==> (r matches Ok(t) ==> t.spec_keys() == self.spec_keys()
                && t.wf() && t.spec_blocks().len() == self.spec_blocks().len() && forall|i: int|
                0 <= i < self.spec_blocks().len() ==> tensor_migrated(
                    self.spec_blocks()[i],
                    #[trigger] t.spec_blocks()[i],
                    dimensions.deep_view(),
                )),
            r matches Err(e) ==> (e matches Error::ComponentNotFound { .. } || e matches Error::DuplicateName { .. }),
    {
        let ghost dims = dimensions.deep_view();
        if dimensions.len() == 0 {
            return Ok(self);
        }
        let mut this = self;
        let mut i: usize = 0;
        while i < this.blocks.len()
            invariant
                dims == dimensions.deep_view(),
                dims.len() > 0,
                self.wf(),
                this.spec_keys() == self.spec_keys(),
                i <= this.spec_blocks().len(),
                this.spec_blocks().len() == self.spec_blocks().len(),
                forall|x: int| 0 <= x < i ==> can_migrate(
                    (#[trigger] self.spec_blocks()[x]).spec_values(),
                    dims,
                ) && tensor_migrated(self.spec_blocks()[x], this.spec_blocks()[x], dims)
                    && this.spec_blocks()[x].wf(),
                forall|x: int| i <= x < this.spec_blocks().len() ==> (
                #[trigger] this.spec_blocks()[x]) == self.spec_blocks()[x],
            decreases this.spec_blocks().len() - i,
        {
            let ghost pre_blocks = this.spec_blocks();
            let mut block = this.blocks.remove(i);
            match block.components_to_properties(dimensions) {
                Ok(()) => {},
                Err(e) => {
                    proof {
                        assert(!can_migrate(self.spec_blocks()[i as int].spec_values(), dims));
                    }
                    return Err(e);
                },
            }
            this.blocks.insert(i, block);
            proof {
                assert(this.spec_blocks() =~= pre_blocks.update(
                    i as int,
                    this.spec_blocks()[i as int],
                ));
            }
            i = i + 1;
        }
        proof {
            assert forall|x: int| 0 <= x < self.spec_blocks().len() implies tensor_migrated(
                self.spec_blocks()[x],
                #[trigger] this.spec_blocks()[x],
                dims,
            ) && this.spec_blocks()[x].wf() by {
                assert(tensor_migrated(self.spec_blocks()[x], this.spec_blocks()[x], dims));
            }
            assert(this.wf());
        }
        Ok(this)
    }
}

} // verus!
