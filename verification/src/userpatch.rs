//! The UserPatch payload: a fixed-size block of opaque bytes and priority
//! tables that only the 11.97 format carries.

use vstd::prelude::*;

use crate::error::DecodeError;
use crate::reader::Reader;

verus! {

broadcast use crate::reader::lemma_reader_bounds;

/// Total size of the UserPatch payload: 4080 opaque bytes, 900 16-bit
/// category priorities, 100 16-bit group priorities, and 2096 further opaque
/// bytes.
pub const USERPATCH_BYTES: usize = 8176;

/// The UserPatch payload. Its contents are consumed to keep the stream in
/// step and are not interpreted.
#[derive(Debug, PartialEq, Eq)]
pub struct UserPatchData {}

impl UserPatchData {
    /// Consume the UserPatch payload from the reader's position.
    pub fn read_from(input: &mut Reader) -> (res: Result<UserPatchData, DecodeError>)
        ensures
            final(input).bytes() == old(input).bytes(),
            final(input).pos() >= old(input).pos(),
            old(input).can_read(USERPATCH_BYTES as int) ==> (res is Ok && final(input).pos() == old(
                input,
            ).pos() + USERPATCH_BYTES),
            !old(input).can_read(USERPATCH_BYTES as int) ==> (res matches Err(
                DecodeError::UnexpectedEnd { position },
            ) && position >= old(input).pos()),
    {
        input.skip(4080)?;  // opaque payload
        input.skip(1800)?;  // 900 category priorities
        input.skip(200)?;  // 100 group priorities
        input.skip(2096)?;  // further opaque payload
        Ok(UserPatchData {  })
    }
}

} // verus!
