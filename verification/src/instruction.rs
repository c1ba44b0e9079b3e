//! The payloads of the instructions: fixed layouts of bytes.

use vstd::array::spec_array_update;
use vstd::prelude::*;
use vstd::slice::slice_subrange;
use crate::error::TokenError;
use crate::pubkey::{Pubkey, SYSTEM_PROGRAM_ID};

verus! {

/// The number that eight bytes spell, least significant byte first.
pub open spec fn u64_le(bytes: Seq<u8>) -> int
    recommends
        bytes.len() == 8,
{
    bytes[0] as int
        + bytes[1] as int * 0x100
        + bytes[2] as int * 0x1_0000
        + bytes[3] as int * 0x100_0000
        + bytes[4] as int * 0x1_0000_0000
        + bytes[5] as int * 0x100_0000_0000
        + bytes[6] as int * 0x1_0000_0000_0000
        + bytes[7] as int * 0x100_0000_0000_0000
}

/// The eight bytes that spell a number, least significant byte first.
pub open spec fn u64_bytes(value: u64) -> Seq<u8> {
    seq![
        (value % 0x100) as u8,
        (value / 0x100 % 0x100) as u8,
        (value / 0x1_0000 % 0x100) as u8,
        (value / 0x100_0000 % 0x100) as u8,
        (value / 0x1_0000_0000 % 0x100) as u8,
        (value / 0x100_0000_0000 % 0x100) as u8,
        (value / 0x1_0000_0000_0000 % 0x100) as u8,
        (value / 0x100_0000_0000_0000 % 0x100) as u8,
    ]
}

/// The address that thirty-two bytes spell.
pub open spec fn pubkey_of(bytes: Seq<u8>) -> Pubkey
    recommends
        bytes.len() == 32,
{
    choose|key: Pubkey| key@ == bytes
}

/// The role that a `SetAuthority` instruction replaces.
#[derive(Clone, Copy, Debug, PartialEq, Eq, Structural)]
pub enum AuthorityType {
    /// Who may mint.
    MintTokens,
    /// Who may freeze and thaw.
    FreezeAccount,
    /// Who owns a holding.
    AccountOwner,
    /// Who may close a holding.
    CloseAccount,
}

/// What an `InitializeMint` payload states.
#[derive(Clone, Copy, Debug, PartialEq, Eq)]
pub struct MintArgs {
    pub decimals: u8,
    pub mint_authority: Pubkey,
    pub freeze_authority: Option<Pubkey>,
}

/// What a `SetAuthority` payload states.
#[derive(Clone, Copy, Debug, PartialEq, Eq)]
pub struct AuthorityArgs {
    pub authority_type: AuthorityType,
    pub new_authority: Option<Pubkey>,
}

/// An amount: exactly eight bytes, least significant first.
pub open spec fn amount_args(data: Seq<u8>) -> Result<u64, TokenError> {
    if data.len() == 8 {
        Ok(u64_le(data) as u64)
    } else {
        Err(TokenError::InvalidInstructionData)
    }
}

/// An amount and the decimals it is stated in: exactly nine bytes.
pub open spec fn checked_amount_args(data: Seq<u8>) -> Result<(u64, u8), TokenError> {
    if data.len() == 9 {
        Ok((u64_le(data.subrange(0, 8)) as u64, data[8]))
    } else {
        Err(TokenError::InvalidInstructionData)
    }
}

/// An address: exactly thirty-two bytes.
pub open spec fn pubkey_args(data: Seq<u8>) -> Result<Pubkey, TokenError> {
    if data.len() == 32 {
        Ok(pubkey_of(data))
    } else {
        Err(TokenError::InvalidInstructionData)
    }
}

/// An optional address: the byte 0, or the byte 1 and thirty-two bytes.
pub open spec fn optional_pubkey_args(data: Seq<u8>) -> Result<Option<Pubkey>, TokenError> {
    if data.len() == 1 && data[0] == 0 {
        Ok(None)
    } else if data.len() == 33 && data[0] == 1 {
        Ok(Some(pubkey_of(data.subrange(1, 33))))
    } else {
        Err(TokenError::InvalidInstructionData)
    }
}

/// The decimals, the mint authority, and the optional freeze authority.
pub open spec fn mint_args(data: Seq<u8>) -> Result<MintArgs, TokenError> {
    if data.len() < 34 {
        Err(TokenError::InvalidInstructionData)
    } else {
        match optional_pubkey_args(data.subrange(33, data.len() as int)) {
            Ok(freeze_authority) => Ok(
                MintArgs {
                    decimals: data[0],
                    mint_authority: pubkey_of(data.subrange(1, 33)),
                    freeze_authority,
                },
            ),
            Err(e) => Err(e),
        }
    }
}

/// The role that a byte of a `SetAuthority` payload names.
pub open spec fn authority_type_of(byte: u8) -> Option<AuthorityType> {
    if byte == 0 {
        Some(AuthorityType::MintTokens)
    } else if byte == 1 {
        Some(AuthorityType::FreezeAccount)
    } else if byte == 2 {
        Some(AuthorityType::AccountOwner)
    } else if byte == 3 {
        Some(AuthorityType::CloseAccount)
    } else {
        None
    }
}

/// The role, and the optional new authority.
pub open spec fn authority_args(data: Seq<u8>) -> Result<AuthorityArgs, TokenError> {
    if data.len() < 2 {
        Err(TokenError::InvalidInstructionData)
    } else {
        match (authority_type_of(data[0]), optional_pubkey_args(data.subrange(1, data.len() as int))) {
            (Some(authority_type), Ok(new_authority)) => Ok(
                AuthorityArgs { authority_type, new_authority },
            ),
            _ => Err(TokenError::InvalidInstructionData),
        }
    }
}

/// The number of required signers: exactly one byte.
pub open spec fn threshold_args(data: Seq<u8>) -> Result<u8, TokenError> {
    if data.len() == 1 {
        Ok(data[0])
    } else {
        Err(TokenError::InvalidInstructionData)
    }
}

/// Spelling a number and reading it back gives the number.
pub proof fn lemma_u64_round_trip(value: u64)
    ensures
        u64_bytes(value).len() == 8,
        u64_le(u64_bytes(value)) == value,
{
    let q1: u64 = value / 0x100;
    let q2: u64 = value / 0x1_0000;
    let q3: u64 = value / 0x100_0000;
    let q4: u64 = value / 0x1_0000_0000;
    let q5: u64 = value / 0x100_0000_0000;
    let q6: u64 = value / 0x1_0000_0000_0000;
    let q7: u64 = value / 0x100_0000_0000_0000;
    assert(q2 == q1 / 0x100) by (bit_vector)
        requires
            q1 == value / 0x100,
            q2 == value / 0x1_0000,
    ;
    assert(q3 == q2 / 0x100) by (bit_vector)
        requires
            q2 == value / 0x1_0000,
            q3 == value / 0x100_0000,
    ;
    assert(q4 == q3 / 0x100) by (bit_vector)
        requires
            q3 == value / 0x100_0000,
            q4 == value / 0x1_0000_0000,
    ;
    assert(q5 == q4 / 0x100) by (bit_vector)
        requires
            q4 == value / 0x1_0000_0000,
            q5 == value / 0x100_0000_0000,
    ;
    assert(q6 == q5 / 0x100) by (bit_vector)
        requires
            q5 == value / 0x100_0000_0000,
            q6 == value / 0x1_0000_0000_0000,
    ;
    assert(q7 == q6 / 0x100) by (bit_vector)
        requires
            q6 == value / 0x1_0000_0000_0000,
            q7 == value / 0x100_0000_0000_0000,
    ;
    assert(q7 < 0x100) by (bit_vector)
        requires
            q7 == value / 0x100_0000_0000_0000,
    ;
    let bytes = u64_bytes(value);
    assert(bytes[0] == value % 0x100);
    assert(bytes[1] == q1 % 0x100);
    assert(bytes[2] == q2 % 0x100);
    assert(bytes[3] == q3 % 0x100);
    assert(bytes[4] == q4 % 0x100);
    assert(bytes[5] == q5 % 0x100);
    assert(bytes[6] == q6 % 0x100);
    assert(bytes[7] == q7);
    assert(value == bytes[0] + 0x100 * q1);
    assert(q1 == bytes[1] + 0x100 * q2);
    assert(q2 == bytes[2] + 0x100 * q3);
    assert(q3 == bytes[3] + 0x100 * q4);
    assert(q4 == bytes[4] + 0x100 * q5);
    assert(q5 == bytes[5] + 0x100 * q6);
    assert(q6 == bytes[6] + 0x100 * q7);
}

/// What eight bytes spell fits in 64 bits.
pub proof fn lemma_u64_le_fits(bytes: Seq<u8>)
    requires
        bytes.len() == 8,
    ensures
        0 <= u64_le(bytes) <= u64::MAX,
{
}

/// An address is the one that its bytes spell.
pub proof fn lemma_pubkey_of(key: Pubkey)
    ensures
        pubkey_of(key@) == key,
{
    let chosen = pubkey_of(key@);
    assert(chosen@ == key@);
    assert(chosen =~= key);
}

/// An address whose first `upto` bytes are those of `bytes`.
pub open spec fn pubkey_upto(bytes: Seq<u8>, upto: nat) -> Pubkey
    decreases upto,
{
    if upto == 0 {
        arbitrary()
    } else {
        spec_array_update(pubkey_upto(bytes, (upto - 1) as nat), upto - 1, bytes[upto - 1])
    }
}

/// The first `upto` bytes of the address made up to there are those of `bytes`.
proof fn lemma_pubkey_upto(bytes: Seq<u8>, upto: nat)
    requires
        upto <= 32,
    ensures
        forall|i: int| 0 <= i < upto ==> pubkey_upto(bytes, upto)@[i] == bytes[i],
    decreases upto,
{
    if upto > 0 {
        lemma_pubkey_upto(bytes, (upto - 1) as nat);
    }
}

/// Thirty-two bytes spell an address: the one that has them as its bytes.
pub proof fn lemma_pubkey_of_bytes(bytes: Seq<u8>)
    requires
        bytes.len() == 32,
    ensures
        pubkey_of(bytes)@ == bytes,
{
    lemma_pubkey_upto(bytes, 32);
    assert(pubkey_upto(bytes, 32)@ =~= bytes);
}

/// Reads the number that eight bytes spell.
pub fn unpack_u64(bytes: &[u8]) -> (value: u64)
    requires
        bytes@.len() == 8,
    ensures
        value == u64_le(bytes@),
{
    (bytes[0] as u64)
        + (bytes[1] as u64) * 0x100
        + (bytes[2] as u64) * 0x1_0000
        + (bytes[3] as u64) * 0x100_0000
        + (bytes[4] as u64) * 0x1_0000_0000
        + (bytes[5] as u64) * 0x100_0000_0000
        + (bytes[6] as u64) * 0x1_0000_0000_0000
        + (bytes[7] as u64) * 0x100_0000_0000_0000
}

/// Spells a number in eight bytes.
pub fn pack_u64(value: u64) -> (bytes: Vec<u8>)
    ensures
        bytes@ == u64_bytes(value),
{
    let mut bytes: Vec<u8> = Vec::new();
    bytes.push((value % 0x100) as u8);
    bytes.push((value / 0x100 % 0x100) as u8);
    bytes.push((value / 0x1_0000 % 0x100) as u8);
    bytes.push((value / 0x100_0000 % 0x100) as u8);
    bytes.push((value / 0x1_0000_0000 % 0x100) as u8);
    bytes.push((value / 0x100_0000_0000 % 0x100) as u8);
    bytes.push((value / 0x1_0000_0000_0000 % 0x100) as u8);
    bytes.push((value / 0x100_0000_0000_0000 % 0x100) as u8);
    assert(bytes@ =~= u64_bytes(value));
    bytes
}

/// Reads the address that thirty-two bytes spell.
pub fn unpack_pubkey(bytes: &[u8]) -> (key: Pubkey)
    requires
        bytes@.len() == 32,
    ensures
        key@ == bytes@,
        key == pubkey_of(bytes@),
{
    let mut key: Pubkey = SYSTEM_PROGRAM_ID;
    let mut i: usize = 0;
    while i < 32
        invariant
            i <= 32,
            bytes@.len() == 32,
            forall|j: int| 0 <= j < i ==> key@[j] == bytes@[j],
        decreases 32 - i,
    {
        key[i] = bytes[i];
        i += 1;
    }
    assert(key@ =~= bytes@);
    proof {
        lemma_pubkey_of(key);
    }
    key
}

/// Reads an amount.
pub fn unpack_amount(data: &[u8]) -> (args: Result<u64, TokenError>)
    ensures
        args == amount_args(data@),
{
    if data.len() == 8 {
        Ok(unpack_u64(data))
    } else {
        Err(TokenError::InvalidInstructionData)
    }
}

/// Reads an amount and the decimals it is stated in.
pub fn unpack_checked_amount(data: &[u8]) -> (args: Result<(u64, u8), TokenError>)
    ensures
        args == checked_amount_args(data@),
{
    if data.len() == 9 {
        Ok((unpack_u64(slice_subrange(data, 0, 8)), data[8]))
    } else {
        Err(TokenError::InvalidInstructionData)
    }
}

/// Reads an address.
pub fn unpack_pubkey_args(data: &[u8]) -> (args: Result<Pubkey, TokenError>)
    ensures
        args == pubkey_args(data@),
{
    if data.len() == 32 {
        Ok(unpack_pubkey(data))
    } else {
        Err(TokenError::InvalidInstructionData)
    }
}

/// Reads an optional address.
pub fn unpack_optional_pubkey(data: &[u8]) -> (args: Result<Option<Pubkey>, TokenError>)
    ensures
        args == optional_pubkey_args(data@),
{
    if data.len() == 1 && data[0] == 0 {
        Ok(None)
    } else if data.len() == 33 && data[0] == 1 {
        Ok(Some(unpack_pubkey(slice_subrange(data, 1, 33))))
    } else {
        Err(TokenError::InvalidInstructionData)
    }
}

/// Reads the payload of `InitializeMint`.
pub fn unpack_mint_args(data: &[u8]) -> (args: Result<MintArgs, TokenError>)
    ensures
        args == mint_args(data@),
{
    if data.len() < 34 {
        return Err(TokenError::InvalidInstructionData);
    }
    match unpack_optional_pubkey(slice_subrange(data, 33, data.len())) {
        Ok(freeze_authority) => Ok(
            MintArgs {
                decimals: data[0],
                mint_authority: unpack_pubkey(slice_subrange(data, 1, 33)),
                freeze_authority,
            },
        ),
        Err(e) => Err(e),
    }
}

/// Reads the role that a byte names.
pub fn unpack_authority_type(byte: u8) -> (role: Option<AuthorityType>)
    ensures
        role == authority_type_of(byte),
{
    if byte == 0 {
        Some(AuthorityType::MintTokens)
    } else if byte == 1 {
        Some(AuthorityType::FreezeAccount)
    } else if byte == 2 {
        Some(AuthorityType::AccountOwner)
    } else if byte == 3 {
        Some(AuthorityType::CloseAccount)
    } else {
        None
    }
}

/// Reads the payload of `SetAuthority`.
pub fn unpack_authority_args(data: &[u8]) -> (args: Result<AuthorityArgs, TokenError>)
    ensures
        args == authority_args(data@),
{
    if data.len() < 2 {
        return Err(TokenError::InvalidInstructionData);
    }
    let role = unpack_authority_type(data[0]);
    let new_authority = unpack_optional_pubkey(slice_subrange(data, 1, data.len()));
    match (role, new_authority) {
        (Some(authority_type), Ok(new_authority)) => Ok(
            AuthorityArgs { authority_type, new_authority },
        ),
        _ => Err(TokenError::InvalidInstructionData),
    }
}

/// Reads the number of required signers.
pub fn unpack_threshold(data: &[u8]) -> (args: Result<u8, TokenError>)
    ensures
        args == threshold_args(data@),
{
    if data.len() == 1 {
        Ok(data[0])
    } else {
        Err(TokenError::InvalidInstructionData)
    }
}

} // verus!
