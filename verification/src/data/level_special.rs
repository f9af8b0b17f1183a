//! The shared level-special configuration (`LEVLSPC2.DAT`). A new game
//! copies the first 0x38 bytes, a player template, into the player state;
//! the `u32` at offset four of it is the player's construction capability
//! mask, which the house tab reads.

use vstd::prelude::*;

use super::units::{le_u32, read_le_u32};

verus! {

/// Bytes of the shared player template.
pub const SHARED_PLAYER_TEMPLATE_LEN: usize = 0x38;

/// Offset of the construction capability mask in the template.
pub const CONSTRUCTION_CAPABILITY_MASK_OFFSET: usize = 4;

#[verifier::external_type_specification]
#[verifier::external_body]
pub struct ExIoError(std::io::Error);

/// Calls `std::io::Error::new` with `ErrorKind::UnexpectedEof` and a message
/// naming the data's length and the template's. Nothing is stated of the
/// error value, which Verus cannot look into.
#[verifier::external_body]
fn truncated_template_error(len: usize) -> (r: std::io::Error) {
    std::io::Error::new(
        std::io::ErrorKind::UnexpectedEof,
        format!("LEVLSPC2.DAT is {} bytes; expected at least {}", len, SHARED_PLAYER_TEMPLATE_LEN),
    )
}

/// The initial player configuration shared by all levels.
#[derive(Clone, Debug, PartialEq, Eq)]
pub struct LevelSpecialData {
    shared_player_template: [u8; SHARED_PLAYER_TEMPLATE_LEN],
}

impl LevelSpecialData {
    /// The template's bytes.
    pub closed spec fn template(&self) -> Seq<u8> {
        self.shared_player_template@
    }

    /// Read the template from the start of the file's data; data shorter
    /// than the template is an unexpected end of file.
    pub fn from_bytes(data: &[u8]) -> (r: Result<Self, std::io::Error>)
        ensures
            r is Ok <==> data@.len() >= SHARED_PLAYER_TEMPLATE_LEN,
            r matches Ok(s) ==> s.template() == data@.subrange(0, SHARED_PLAYER_TEMPLATE_LEN as int),
    {
        if data.len() < SHARED_PLAYER_TEMPLATE_LEN {
            return Err(truncated_template_error(data.len()));
        }
        let mut shared_player_template = [0u8; SHARED_PLAYER_TEMPLATE_LEN];
        let mut i: usize = 0;
        while i < SHARED_PLAYER_TEMPLATE_LEN
            invariant
                i <= SHARED_PLAYER_TEMPLATE_LEN <= data@.len(),
                forall|k: int| 0 <= k < i ==> shared_player_template@[k] == data@[k],
            decreases SHARED_PLAYER_TEMPLATE_LEN - i,
        {
            shared_player_template[i] = data[i];
            i += 1;
        }
        let r = LevelSpecialData { shared_player_template };
        assert(r.template() =~= data@.subrange(0, SHARED_PLAYER_TEMPLATE_LEN as int));
        Ok(r)
    }

    /// The construction capability mask of a new game: the little-endian
    /// `u32` at offset four of the template.
    pub fn initial_construction_capabilities(&self) -> (r: u32)
        ensures
            r == le_u32(self.template()[4], self.template()[5], self.template()[6], self.template()[7]),
    {
        let t = &self.shared_player_template;
        read_le_u32(t[4], t[5], t[6], t[7])
    }
}

} // verus!
