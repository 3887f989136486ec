use vstd::prelude::*;

verus! {

/// How a declaration of an attribute combines with an earlier one.
#[derive(Clone, Copy, PartialEq, Eq, Structural, Debug, Hash)]
pub enum ConfigEntryOperationKind {
    /// Declarative merge: the value becomes part of the accumulated definition.
    Union,
    /// Explicit replacement of the value and of its operation tag.
    Override,
    /// Positional accumulation into a list held under the attribute.
    Insert,
}

impl ConfigEntryOperationKind {
    /// The name of the operation.
    pub fn name(&self) -> (r: &'static str)
        ensures
            r@ == self.spec_name(),
    {
        match self {
            ConfigEntryOperationKind::Union => "Union",
            ConfigEntryOperationKind::Override => "Override",
            ConfigEntryOperationKind::Insert => "Insert",
        }
    }

    /// The name of the operation.
    pub open spec fn spec_name(&self) -> Seq<char> {
        match self {
            ConfigEntryOperationKind::Union => "Union"@,
            ConfigEntryOperationKind::Override => "Override"@,
            ConfigEntryOperationKind::Insert => "Insert"@,
        }
    }
}

/// The insert position that an attribute without a recorded one is read with:
/// no explicit position.
pub const NO_INSERT_INDEX: i32 = -1;

} // verus!
