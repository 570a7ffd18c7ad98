//! The ratchet tree as the framing checks see it: the leaves of the group's
//! members and the key packages they hold.

use vstd::prelude::*;

use crate::framing::KeyPackage;

verus! {

/// Errors of tree lookups.
#[derive(Clone, Copy, Debug, PartialEq, Eq, Structural)]
pub enum TreeSyncError {
    OutOfBounds,
}

/// A leaf of the tree, occupied by a member.
pub struct LeafNode {
    pub key_package: KeyPackage,
}

impl LeafNode {
    pub fn key_package(&self) -> (k: &KeyPackage)
        ensures
            *k == self.key_package,
    {
        &self.key_package
    }
}

/// The leaves of the group's tree; a blank leaf is `None`. The member that
/// holds the tree sits at `own_leaf_index`.
pub struct TreeSync {
    pub leaves: Vec<Option<LeafNode>>,
    pub own_leaf_index: u32,
}

/// The leftmost blank leaf, or the number of leaves when none is blank.
pub open spec fn first_free_leaf(leaves: Seq<Option<LeafNode>>) -> nat
    decreases leaves.len(),
{
    if leaves.len() == 0 {
        0
    } else if leaves[0] is None {
        0
    } else {
        1 + first_free_leaf(leaves.drop_first())
    }
}

/// The leftmost blank leaf is at most the number of leaves; every leaf before
/// it is occupied, and it is blank where it is a leaf.
pub proof fn lemma_first_free_leaf(leaves: Seq<Option<LeafNode>>)
    ensures
        first_free_leaf(leaves) <= leaves.len(),
        forall|j: int| 0 <= j < first_free_leaf(leaves) ==> #[trigger] leaves[j] is Some,
        first_free_leaf(leaves) < leaves.len() ==> leaves[first_free_leaf(leaves) as int] is None,
    decreases leaves.len(),
{
    if leaves.len() > 0 && leaves[0] is Some {
        let t = leaves.drop_first();
        lemma_first_free_leaf(t);
        assert forall|j: int| 0 <= j < first_free_leaf(leaves) implies #[trigger] leaves[j] is Some by {
            if j > 0 {
                assert(leaves[j] == t[j - 1]);
            }
        }
        if first_free_leaf(leaves) < leaves.len() {
            assert(leaves[first_free_leaf(leaves) as int] == t[first_free_leaf(t) as int]);
        }
    }
}

impl TreeSync {
    pub fn new(leaves: Vec<Option<LeafNode>>, own_leaf_index: u32) -> (t: TreeSync)
        ensures
            t.leaves == leaves,
            t.own_leaf_index == own_leaf_index,
    {
        TreeSync { leaves, own_leaf_index }
    }

    /// The leaf index of the member that holds the tree.
    pub fn own_leaf_index(&self) -> (i: u32)
        ensures
            i == self.own_leaf_index,
    {
        self.own_leaf_index
    }

    /// The leftmost blank leaf, or the number of leaves when none is blank:
    /// where a new member is put.
    pub fn free_leaf_index(&self) -> (i: u32)
        requires
            self.leaves@.len() <= u32::MAX,
        ensures
            i == first_free_leaf(self.leaves@),
            i <= self.leaves@.len(),
            forall|j: int| 0 <= j < i ==> #[trigger] self.leaves@[j] is Some,
            i < self.leaves@.len() ==> self.leaves@[i as int] is None,
    {
        let mut i: usize = 0;
        assert(self.leaves@.skip(0) =~= self.leaves@);
        while i < self.leaves.len()
            invariant
                i <= self.leaves@.len() <= u32::MAX,
                first_free_leaf(self.leaves@) == i + first_free_leaf(self.leaves@.skip(i as int)),
            decreases self.leaves@.len() - i,
        {
            let ghost rest = self.leaves@.skip(i as int);
            if self.leaves[i].is_none() {
                assert(rest[0] == self.leaves@[i as int]);
                proof {
                    lemma_first_free_leaf(self.leaves@);
                }
                return i as u32;
            }
            assert(rest[0] == self.leaves@[i as int]);
            assert(rest.drop_first() =~= self.leaves@.skip(i + 1));
            i = i + 1;
        }
        assert(self.leaves@.skip(i as int).len() == 0);
        proof {
            lemma_first_free_leaf(self.leaves@);
        }
        i as u32
    }

    /// The leaf at `leaf_index`: `None` when it is blank, an error when the
    /// tree has no such leaf.
    pub fn leaf(&self, leaf_index: u32) -> (res: Result<Option<&LeafNode>, TreeSyncError>)
        ensures
            leaf_index >= self.leaves@.len() ==> res == Err::<Option<&LeafNode>, TreeSyncError>(
                TreeSyncError::OutOfBounds,
            ),
            leaf_index < self.leaves@.len() ==> res is Ok,
            res matches Ok(o) ==> (match o {
                Some(l) => self.leaves@[leaf_index as int] == Some(*l),
                None => self.leaves@[leaf_index as int] is None,
            }),
    {
        if (leaf_index as usize) < self.leaves.len() {
            Ok(self.leaves[leaf_index as usize].as_ref())
        } else {
            Err(TreeSyncError::OutOfBounds)
        }
    }
}

} // verus!
