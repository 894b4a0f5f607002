//! The values that the operations on organizational units take.

use vstd::prelude::*;

verus! {

/// How far below an organizational unit a listing reaches.
#[derive(Clone, Copy, Debug, PartialEq, Eq, Structural)]
pub enum DirectoryOrgunitsListType {
    /// All organizational units below the given one, at any depth.
    AllChildren,
    /// Only the organizational units directly below the given one.
    Children,
}

impl DirectoryOrgunitsListType {
    /// The value of the `type` query parameter that selects this scope.
    pub open spec fn wire_name(self) -> Seq<char> {
        match self {
            DirectoryOrgunitsListType::AllChildren => "ALL_CHILDREN"@,
            DirectoryOrgunitsListType::Children => "CHILDREN"@,
        }
    }

    /// The value of the `type` query parameter that selects this scope.
    pub fn as_str(&self) -> (s: &'static str)
        ensures
            s@ == self.wire_name(),
    {
        match self {
            DirectoryOrgunitsListType::AllChildren => "ALL_CHILDREN",
            DirectoryOrgunitsListType::Children => "CHILDREN",
        }
    }
}

} // verus!
