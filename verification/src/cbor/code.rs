//! Enumerations that are written as codes.
use crate::common::error::MessageError;
use vstd::prelude::*;

verus! {

/// An enumeration whose members are written as codes.
pub trait WireCode: Copy {
    /// The code of a member.
    spec fn code(self) -> u8;

    /// The codes of all members.
    spec fn codes() -> Set<u8>;

    /// The member with this code.
    fn from_code(code: u8) -> (r: Result<Self, MessageError>)
        ensures
            match r {
                Ok(member) => Self::codes().contains(code) && member.code() == code,
                Err(e) => e == MessageError::InvalidField && !Self::codes().contains(code),
            },
    ;

    /// The code of this member.
    fn to_code(self) -> (code: u8)
        ensures
            code == self.code(),
    ;
}

/// The codes of a list.
pub open spec fn codes_of<E: WireCode>(members: Seq<E>) -> Seq<u8> {
    members.map_values(|member: E| member.code())
}

} // verus!
