//! Reading numbers from the raw bytes that come with received tokens, in
//! the contract's serial format through `concordium_std`.
use vstd::prelude::*;
use crate::errors::{ContractError, ContractResult};

verus! {

/// The `u16` that the first two bytes of `data` encode, least significant
/// byte first; `None` where there are fewer than two bytes. Bytes after
/// the first two are not looked at.
pub open spec fn le_u16_prefix(data: Seq<u8>) -> Option<u16> {
    if data.len() >= 2 {
        Some((data[0] + 256 * data[1]) as u16)
    } else {
        None
    }
}

/// Calls `concordium_std::from_bytes::<u16>` on `data`. Claimed, from its
/// source (a cursor over the bytes reads exactly two with `read_exact` and
/// decodes them with `u16::from_le_bytes`; nothing checks that the input is
/// used up): the little-endian value of the first two bytes, or a parse
/// error, mapped to `None`, where fewer than two bytes are given.
#[verifier::external_body]
pub(crate) fn u16_from_bytes(data: &[u8]) -> (r: Option<u16>)
    ensures
        r == le_u16_prefix(data@),
{
    match concordium_std::from_bytes::<u16>(data) {
        Ok(d) => Some(d),
        Err(_) => None,
    }
}

/// The lock duration, in days, that comes as the additional data of a
/// token transfer to stake: the first two bytes, least significant first.
/// Fewer than two bytes are refused with `ParseParams`.
pub fn parse_stake_duration(data: &[u8]) -> (r: ContractResult<u16>)
    ensures
        r == (match le_u16_prefix(data@) {
            Some(d) => Ok(d),
            None => Err(ContractError::ParseParams),
        }),
{
    match u16_from_bytes(data) {
        Some(d) => Ok(d),
        None => Err(ContractError::ParseParams),
    }
}

} // verus!
