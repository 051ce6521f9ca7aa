//! Values that calls to the firmware's boot services take.

use vstd::prelude::*;

verus! {

/// How the firmware is to search for handles.
#[derive(Clone, Copy, Debug, PartialEq, Eq, Structural)]
pub enum LocateSearchType {
    AllHandles,
    ByRegisterNotify,
    ByProtocol,
}

impl LocateSearchType {
    /// The number that stands for the search type in a firmware call.
    pub open spec fn value_spec(self) -> u32 {
        match self {
            LocateSearchType::AllHandles => 0,
            LocateSearchType::ByRegisterNotify => 1,
            LocateSearchType::ByProtocol => 2,
        }
    }

    /// The number that stands for the search type in a firmware call.
    pub fn value(self) -> (v: u32)
        ensures
            v == self.value_spec(),
    {
        match self {
            LocateSearchType::AllHandles => 0,
            LocateSearchType::ByRegisterNotify => 1,
            LocateSearchType::ByProtocol => 2,
        }
    }

    /// The search type that a number stands for, if it stands for one.
    pub fn from_value(value: u32) -> (r: Option<LocateSearchType>)
        ensures
            r matches Some(t) ==> t.value_spec() == value,
            r is None ==> forall|t: LocateSearchType| t.value_spec() != value,
    {
        match value {
            0 => Some(LocateSearchType::AllHandles),
            1 => Some(LocateSearchType::ByRegisterNotify),
            2 => Some(LocateSearchType::ByProtocol),
            _ => None,
        }
    }
}

} // verus!
