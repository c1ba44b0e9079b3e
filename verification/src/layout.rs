//! The records as bytes: how a mint, a holding and a multisignature lie in
//! the data of their accounts.
//!
//! A mint takes 82 bytes, a multisignature 355. A holding takes 165 bytes;
//! one whose owner is immutable takes five more, which say so. Numbers are
//! spelled least significant byte first; an optional field is four bytes that
//! spell 0 or 1, and the bytes of its value.

use vstd::prelude::*;
use vstd::slice::slice_subrange;
use crate::instruction::{
    lemma_pubkey_of, lemma_u64_round_trip, pack_u64, pubkey_of, u64_bytes, u64_le, unpack_pubkey,
    unpack_u64,
};
use crate::processor::initialize_multisig::{lemma_signer_array, signer_array};
use crate::pubkey::{Pubkey, SYSTEM_PROGRAM_ID};
use crate::state::{Account, AccountData, AccountState, Mint, Multisig, ACCOUNT_LEN};

verus! {

/// The size in bytes of a stored mint.
pub const MINT_LEN: usize = 82;

/// The size in bytes of a stored holding whose owner is immutable.
pub const IMMUTABLE_HOLDING_LEN: usize = 170;

/// The size in bytes of a stored multisignature.
pub const MULTISIG_LEN: usize = 355;

/// The four bytes before an optional value: they spell 1 where there is one, else 0.
pub open spec fn tag_bytes(present: bool) -> Seq<u8> {
    if present {
        seq![1u8, 0u8, 0u8, 0u8]
    } else {
        seq![0u8, 0u8, 0u8, 0u8]
    }
}

/// Whether there is a value after the four bytes of a tag; nothing, where
/// they spell neither 0 nor 1.
pub open spec fn tag_of(bytes: Seq<u8>) -> Option<bool> {
    if bytes =~= tag_bytes(true) {
        Some(true)
    } else if bytes =~= tag_bytes(false) {
        Some(false)
    } else {
        None
    }
}

/// An optional address in 36 bytes. Without an address the 32 bytes are zero.
pub open spec fn option_key_bytes(key: Option<Pubkey>) -> Seq<u8> {
    match key {
        Some(key) => tag_bytes(true) + key@,
        None => tag_bytes(false) + SYSTEM_PROGRAM_ID@,
    }
}

/// The optional address that 36 bytes spell; nothing, where the tag is none.
pub open spec fn option_key_of(bytes: Seq<u8>) -> Option<Option<Pubkey>> {
    match tag_of(bytes.subrange(0, 4)) {
        Some(true) => Some(Some(pubkey_of(bytes.subrange(4, 36)))),
        Some(false) => Some(None),
        None => None,
    }
}

/// An optional number in 12 bytes. Without a number the 8 bytes are zero.
pub open spec fn option_u64_bytes(value: Option<u64>) -> Seq<u8> {
    match value {
        Some(value) => tag_bytes(true) + u64_bytes(value),
        None => tag_bytes(false) + u64_bytes(0),
    }
}

/// The optional number that 12 bytes spell; nothing, where the tag is none.
pub open spec fn option_u64_of(bytes: Seq<u8>) -> Option<Option<u64>> {
    match tag_of(bytes.subrange(0, 4)) {
        Some(true) => Some(Some(u64_le(bytes.subrange(4, 12)) as u64)),
        Some(false) => Some(None),
        None => None,
    }
}

/// A flag in one byte.
pub open spec fn bool_byte(flag: bool) -> u8 {
    if flag {
        1
    } else {
        0
    }
}

/// The flag that a byte spells; nothing, where it is neither 0 nor 1.
pub open spec fn bool_of(byte: u8) -> Option<bool> {
    if byte == 0 {
        Some(false)
    } else if byte == 1 {
        Some(true)
    } else {
        None
    }
}

/// The state of a holding in one byte.
pub open spec fn state_byte(state: AccountState) -> u8 {
    match state {
        AccountState::Uninitialized => 0,
        AccountState::Initialized => 1,
        AccountState::Frozen => 2,
    }
}

/// The state that a byte spells; nothing, where it is none of 0, 1 and 2.
pub open spec fn state_of(byte: u8) -> Option<AccountState> {
    if byte == 0 {
        Some(AccountState::Uninitialized)
    } else if byte == 1 {
        Some(AccountState::Initialized)
    } else if byte == 2 {
        Some(AccountState::Frozen)
    } else {
        None
    }
}

/// A mint in 82 bytes: the mint authority, the supply, the decimals, whether
/// it is initialized, and the freeze authority.
pub open spec fn mint_bytes(mint: Mint) -> Seq<u8> {
    option_key_bytes(mint.mint_authority) + u64_bytes(mint.supply) + seq![
        mint.decimals,
        bool_byte(mint.is_initialized),
    ] + option_key_bytes(mint.freeze_authority)
}

/// The mint that bytes spell; nothing, where they are not 82 or a tag or flag is none.
pub open spec fn mint_of(bytes: Seq<u8>) -> Option<Mint> {
    let mint_authority = option_key_of(bytes.subrange(0, 36));
    let is_initialized = bool_of(bytes[45]);
    let freeze_authority = option_key_of(bytes.subrange(46, 82));
    if bytes.len() != 82 || mint_authority is None || is_initialized is None || freeze_authority
        is None {
        None
    } else {
        Some(
            Mint {
                mint_authority: mint_authority->Some_0,
                supply: u64_le(bytes.subrange(36, 44)) as u64,
                decimals: bytes[44],
                is_initialized: is_initialized->Some_0,
                freeze_authority: freeze_authority->Some_0,
            },
        )
    }
}

/// An optional address takes 36 bytes and is read back from them.
pub proof fn lemma_option_key_round_trip(key: Option<Pubkey>)
    ensures
        option_key_bytes(key).len() == 36,
        option_key_of(option_key_bytes(key)) == Some(key),
{
    let bytes = option_key_bytes(key);
    match key {
        Some(held) => {
            assert(bytes.subrange(0, 4) =~= tag_bytes(true));
            assert(bytes.subrange(4, 36) =~= held@);
            lemma_pubkey_of(held);
        },
        None => {
            assert(bytes.subrange(0, 4) =~= tag_bytes(false));
            assert(!(tag_bytes(false) =~= tag_bytes(true))) by {
                assert(tag_bytes(false)[0] != tag_bytes(true)[0]);
            }
        },
    }
}

/// An optional number takes 12 bytes and is read back from them.
pub proof fn lemma_option_u64_round_trip(value: Option<u64>)
    ensures
        option_u64_bytes(value).len() == 12,
        option_u64_of(option_u64_bytes(value)) == Some(value),
{
    let bytes = option_u64_bytes(value);
    match value {
        Some(held) => {
            lemma_u64_round_trip(held);
            assert(bytes.subrange(0, 4) =~= tag_bytes(true));
            assert(bytes.subrange(4, 12) =~= u64_bytes(held));
        },
        None => {
            assert(bytes.subrange(0, 4) =~= tag_bytes(false));
            assert(!(tag_bytes(false) =~= tag_bytes(true))) by {
                assert(tag_bytes(false)[0] != tag_bytes(true)[0]);
            }
        },
    }
}

/// A mint takes 82 bytes and is read back from them.
pub proof fn lemma_mint_round_trip(mint: Mint)
    ensures
        mint_bytes(mint).len() == 82,
        mint_of(mint_bytes(mint)) == Some(mint),
{
    let bytes = mint_bytes(mint);
    lemma_option_key_round_trip(mint.mint_authority);
    lemma_option_key_round_trip(mint.freeze_authority);
    lemma_u64_round_trip(mint.supply);
    assert(bytes.subrange(0, 36) =~= option_key_bytes(mint.mint_authority));
    assert(bytes.subrange(36, 44) =~= u64_bytes(mint.supply));
    assert(bytes.subrange(46, 82) =~= option_key_bytes(mint.freeze_authority));
    assert(bytes[44] == mint.decimals);
    assert(bytes[45] == bool_byte(mint.is_initialized));
}

/// Appends bytes to bytes.
pub fn append(out: &mut Vec<u8>, bytes: &[u8])
    ensures
        final(out)@ == old(out)@ + bytes@,
{
    let mut i: usize = 0;
    while i < bytes.len()
        invariant
            i <= bytes@.len(),
            out@ == old(out)@ + bytes@.take(i as int),
        decreases bytes@.len() - i,
    {
        out.push(bytes[i]);
        i += 1;
        assert(out@ =~= old(out)@ + bytes@.take(i as int));
    }
    assert(bytes@.take(bytes@.len() as int) =~= bytes@);
    assert(old(out)@ + bytes@.take(0) =~= old(out)@);
}

/// Appends a tag.
fn pack_tag(out: &mut Vec<u8>, present: bool)
    ensures
        final(out)@ == old(out)@ + tag_bytes(present),
{
    out.push(if present {
        1
    } else {
        0
    });
    out.push(0);
    out.push(0);
    out.push(0);
    assert(out@ =~= old(out)@ + tag_bytes(present));
}

/// Appends an optional address.
fn pack_option_key(out: &mut Vec<u8>, key: &Option<Pubkey>)
    ensures
        final(out)@ == old(out)@ + option_key_bytes(*key),
{
    match key {
        Some(key) => {
            pack_tag(out, true);
            append(out, key.as_slice());
            assert(out@ =~= old(out)@ + option_key_bytes(Some(*key)));
        },
        None => {
            pack_tag(out, false);
            append(out, SYSTEM_PROGRAM_ID.as_slice());
            assert(out@ =~= old(out)@ + option_key_bytes(None));
        },
    }
}

/// Appends an optional number.
fn pack_option_u64(out: &mut Vec<u8>, value: &Option<u64>)
    ensures
        final(out)@ == old(out)@ + option_u64_bytes(*value),
{
    match value {
        Some(value) => {
            pack_tag(out, true);
            let number = pack_u64(*value);
            append(out, number.as_slice());
            assert(out@ =~= old(out)@ + option_u64_bytes(Some(*value)));
        },
        None => {
            pack_tag(out, false);
            let number = pack_u64(0);
            append(out, number.as_slice());
            assert(out@ =~= old(out)@ + option_u64_bytes(None));
        },
    }
}

/// Reads a tag from four bytes.
fn unpack_tag(bytes: &[u8]) -> (tag: Option<bool>)
    requires
        bytes@.len() == 4,
    ensures
        tag == tag_of(bytes@),
{
    if bytes[1] != 0 || bytes[2] != 0 || bytes[3] != 0 {
        assert(bytes@[1] != tag_bytes(true)[1] || bytes@[2] != tag_bytes(true)[2] || bytes@[3]
            != tag_bytes(true)[3]);
        None
    } else if bytes[0] == 1 {
        assert(bytes@ =~= tag_bytes(true));
        Some(true)
    } else if bytes[0] == 0 {
        assert(bytes@ =~= tag_bytes(false));
        assert(bytes@[0] != tag_bytes(true)[0]);
        Some(false)
    } else {
        assert(bytes@[0] != tag_bytes(true)[0] && bytes@[0] != tag_bytes(false)[0]);
        None
    }
}

/// Reads an optional address from 36 bytes.
fn unpack_option_key(bytes: &[u8]) -> (key: Option<Option<Pubkey>>)
    requires
        bytes@.len() == 36,
    ensures
        key == option_key_of(bytes@),
{
    match unpack_tag(slice_subrange(bytes, 0, 4)) {
        Some(true) => Some(Some(unpack_pubkey(slice_subrange(bytes, 4, 36)))),
        Some(false) => Some(None),
        None => None,
    }
}

/// Reads an optional number from 12 bytes.
fn unpack_option_u64(bytes: &[u8]) -> (value: Option<Option<u64>>)
    requires
        bytes@.len() == 12,
    ensures
        value == option_u64_of(bytes@),
{
    match unpack_tag(slice_subrange(bytes, 0, 4)) {
        Some(true) => Some(Some(unpack_u64(slice_subrange(bytes, 4, 12)))),
        Some(false) => Some(None),
        None => None,
    }
}

/// Reads a flag from a byte.
fn unpack_bool(byte: u8) -> (flag: Option<bool>)
    ensures
        flag == bool_of(byte),
{
    if byte == 0 {
        Some(false)
    } else if byte == 1 {
        Some(true)
    } else {
        None
    }
}

/// Spells a mint in 82 bytes.
pub fn pack_mint(mint: &Mint) -> (bytes: Vec<u8>)
    ensures
        bytes@ == mint_bytes(*mint),
{
    let mut bytes: Vec<u8> = Vec::new();
    pack_option_key(&mut bytes, &mint.mint_authority);
    let supply = pack_u64(mint.supply);
    append(&mut bytes, supply.as_slice());
    bytes.push(mint.decimals);
    bytes.push(if mint.is_initialized {
        1
    } else {
        0
    });
    pack_option_key(&mut bytes, &mint.freeze_authority);
    assert(bytes@ =~= mint_bytes(*mint));
    bytes
}

/// Reads a mint from its 82 bytes.
pub fn unpack_mint(bytes: &[u8]) -> (mint: Option<Mint>)
    ensures
        mint == mint_of(bytes@),
{
    if bytes.len() != MINT_LEN {
        return None;
    }
    let mint_authority = unpack_option_key(slice_subrange(bytes, 0, 36))?;
    let is_initialized = unpack_bool(bytes[45])?;
    let freeze_authority = unpack_option_key(slice_subrange(bytes, 46, 82))?;
    Some(
        Mint {
            mint_authority,
            supply: unpack_u64(slice_subrange(bytes, 36, 44)),
            decimals: bytes[44],
            is_initialized,
            freeze_authority,
        },
    )
}

/// The five bytes after a holding that say that its owner is immutable.
pub open spec fn immutable_owner_bytes() -> Seq<u8> {
    seq![2u8, 7u8, 0u8, 0u8, 0u8]
}

/// The first 165 bytes of a holding: the mint, the owner, the balance, the
/// delegate, the state, the native reserve, the allowance and the close authority.
pub open spec fn holding_base_bytes(holding: Account) -> Seq<u8> {
    holding.mint@ + holding.owner@ + u64_bytes(holding.amount) + option_key_bytes(
        holding.delegate,
    ) + seq![state_byte(holding.state)] + option_u64_bytes(holding.is_native) + u64_bytes(
        holding.delegated_amount,
    ) + option_key_bytes(holding.close_authority)
}

/// A holding in bytes: 165, and five more where its owner is immutable.
pub open spec fn holding_bytes(holding: Account) -> Seq<u8> {
    if holding.immutable_owner {
        holding_base_bytes(holding) + immutable_owner_bytes()
    } else {
        holding_base_bytes(holding)
    }
}

/// Whether the owner is immutable, as the bytes after the first 165 say;
/// nothing, where there are neither none, nor five zeros, nor the five that say so.
pub open spec fn immutable_owner_of(bytes: Seq<u8>) -> Option<bool> {
    if bytes.len() == 0 {
        Some(false)
    } else if bytes =~= immutable_owner_bytes() {
        Some(true)
    } else if bytes =~= seq![0u8, 0u8, 0u8, 0u8, 0u8] {
        Some(false)
    } else {
        None
    }
}

/// The holding that bytes spell; nothing, where they are too few or a tag,
/// the state or what follows the first 165 is none.
pub open spec fn holding_of(bytes: Seq<u8>) -> Option<Account> {
    let delegate = option_key_of(bytes.subrange(72, 108));
    let state = state_of(bytes[108]);
    let is_native = option_u64_of(bytes.subrange(109, 121));
    let close_authority = option_key_of(bytes.subrange(129, 165));
    let immutable_owner = immutable_owner_of(bytes.subrange(165, bytes.len() as int));
    if bytes.len() < 165 || delegate is None || state is None || is_native is None
        || close_authority is None || immutable_owner is None {
        None
    } else {
        Some(
            Account {
                mint: pubkey_of(bytes.subrange(0, 32)),
                owner: pubkey_of(bytes.subrange(32, 64)),
                amount: u64_le(bytes.subrange(64, 72)) as u64,
                delegate: delegate->Some_0,
                state: state->Some_0,
                is_native: is_native->Some_0,
                delegated_amount: u64_le(bytes.subrange(121, 129)) as u64,
                close_authority: close_authority->Some_0,
                immutable_owner: immutable_owner->Some_0,
            },
        )
    }
}

/// The signers of a multisignature in 352 bytes, one address after the other.
pub open spec fn signers_bytes(signers: [Pubkey; 11]) -> Seq<u8> {
    Seq::new(352, |i: int| signers[i / 32][i % 32])
}

/// The signers that 352 bytes spell.
pub open spec fn signers_of(bytes: Seq<u8>) -> [Pubkey; 11] {
    signer_array(Seq::new(11, |k: int| pubkey_of(bytes.subrange(32 * k, 32 * k + 32))))
}

/// A multisignature in 355 bytes: `m`, `n`, whether it is initialized, and the signers.
pub open spec fn multisig_bytes(multisig: Multisig) -> Seq<u8> {
    seq![multisig.m, multisig.n, bool_byte(multisig.is_initialized)] + signers_bytes(
        multisig.signers,
    )
}

/// The multisignature that bytes spell; nothing, where they are not 355 or
/// the flag is none.
pub open spec fn multisig_of(bytes: Seq<u8>) -> Option<Multisig> {
    let is_initialized = bool_of(bytes[2]);
    if bytes.len() != 355 || is_initialized is None {
        None
    } else {
        Some(
            Multisig {
                m: bytes[0],
                n: bytes[1],
                is_initialized: is_initialized->Some_0,
                signers: signers_of(bytes.subrange(3, 355)),
            },
        )
    }
}

/// A record in bytes; none for no record.
pub open spec fn account_data_bytes(data: AccountData) -> Seq<u8> {
    match data {
        AccountData::Empty => Seq::empty(),
        AccountData::Mint(mint) => mint_bytes(mint),
        AccountData::Account(holding) => holding_bytes(holding),
        AccountData::Multisig(multisig) => multisig_bytes(multisig),
    }
}

/// The record that the data of an account spell, by their number: 82 bytes
/// are a mint, 165 or 170 a holding, 355 a multisignature. Any other data,
/// and data that spell none of these, are no record.
pub open spec fn account_data_of(bytes: Seq<u8>) -> AccountData {
    if bytes.len() == 82 && mint_of(bytes) is Some {
        AccountData::Mint(mint_of(bytes)->Some_0)
    } else if (bytes.len() == 165 || bytes.len() == 170) && holding_of(bytes) is Some {
        AccountData::Account(holding_of(bytes)->Some_0)
    } else if bytes.len() == 355 && multisig_of(bytes) is Some {
        AccountData::Multisig(multisig_of(bytes)->Some_0)
    } else {
        AccountData::Empty
    }
}

/// Where the fields of a holding lie in its first 165 bytes.
pub proof fn lemma_holding_fields(holding: Account)
    ensures
        holding_base_bytes(holding).len() == 165,
        holding_base_bytes(holding).subrange(0, 32) == holding.mint@,
        holding_base_bytes(holding).subrange(32, 64) == holding.owner@,
        holding_base_bytes(holding).subrange(64, 72) == u64_bytes(holding.amount),
        holding_base_bytes(holding).subrange(72, 108) == option_key_bytes(holding.delegate),
        holding_base_bytes(holding)[108] == state_byte(holding.state),
        holding_base_bytes(holding).subrange(109, 121) == option_u64_bytes(holding.is_native),
        holding_base_bytes(holding).subrange(121, 129) == u64_bytes(holding.delegated_amount),
        holding_base_bytes(holding).subrange(129, 165) == option_key_bytes(
            holding.close_authority,
        ),
{
    let base = holding_base_bytes(holding);
    lemma_option_key_round_trip(holding.delegate);
    lemma_option_key_round_trip(holding.close_authority);
    lemma_option_u64_round_trip(holding.is_native);
    let front = holding.mint@ + holding.owner@ + u64_bytes(holding.amount);
    assert(front.len() == 72);
    let middle = front + option_key_bytes(holding.delegate) + seq![state_byte(holding.state)];
    assert(middle.len() == 109);
    let back = middle + option_u64_bytes(holding.is_native) + u64_bytes(
        holding.delegated_amount,
    );
    assert(back.len() == 129);
    assert(base == back + option_key_bytes(holding.close_authority));
    assert(front.subrange(0, 32) =~= holding.mint@);
    assert(front.subrange(32, 64) =~= holding.owner@);
    assert(front.subrange(64, 72) =~= u64_bytes(holding.amount));
    assert(middle.subrange(0, 72) =~= front);
    assert(middle.subrange(72, 108) =~= option_key_bytes(holding.delegate));
    assert(back.subrange(0, 109) =~= middle);
    assert(back.subrange(109, 121) =~= option_u64_bytes(holding.is_native));
    assert(back.subrange(121, 129) =~= u64_bytes(holding.delegated_amount));
    assert(base.subrange(0, 129) =~= back);
    assert(base.subrange(129, 165) =~= option_key_bytes(holding.close_authority));
    assert(base.subrange(0, 32) =~= front.subrange(0, 32));
    assert(base.subrange(32, 64) =~= front.subrange(32, 64));
    assert(base.subrange(64, 72) =~= front.subrange(64, 72));
    assert(base.subrange(72, 108) =~= middle.subrange(72, 108));
    assert(base[108] == middle[108]);
    assert(base.subrange(109, 121) =~= back.subrange(109, 121));
    assert(base.subrange(121, 129) =~= back.subrange(121, 129));
}

/// A holding takes 165 or 170 bytes and is read back from them.
#[verifier::rlimit(40)]
pub proof fn lemma_holding_round_trip(holding: Account)
    ensures
        holding_bytes(holding).len() == if holding.immutable_owner {
            170int
        } else {
            165int
        },
        holding_of(holding_bytes(holding)) == Some(holding),
{
    let base = holding_base_bytes(holding);
    let bytes = holding_bytes(holding);
    lemma_holding_fields(holding);
    assert(bytes.subrange(0, 32) =~= base.subrange(0, 32));
    assert(bytes.subrange(32, 64) =~= base.subrange(32, 64));
    assert(bytes.subrange(64, 72) =~= base.subrange(64, 72));
    assert(bytes.subrange(72, 108) =~= base.subrange(72, 108));
    assert(bytes[108] == base[108]);
    assert(bytes.subrange(109, 121) =~= base.subrange(109, 121));
    assert(bytes.subrange(121, 129) =~= base.subrange(121, 129));
    assert(bytes.subrange(129, 165) =~= base.subrange(129, 165));
    if holding.immutable_owner {
        assert(bytes.subrange(165, bytes.len() as int) =~= immutable_owner_bytes());
    } else {
        assert(bytes.subrange(165, bytes.len() as int).len() == 0);
    }
    lemma_option_key_round_trip(holding.delegate);
    lemma_option_key_round_trip(holding.close_authority);
    lemma_option_u64_round_trip(holding.is_native);
    lemma_u64_round_trip(holding.amount);
    lemma_u64_round_trip(holding.delegated_amount);
    lemma_pubkey_of(holding.mint);
    lemma_pubkey_of(holding.owner);
}

/// A multisignature takes 355 bytes and is read back from them.
pub proof fn lemma_multisig_round_trip(multisig: Multisig)
    ensures
        multisig_bytes(multisig).len() == 355,
        multisig_of(multisig_bytes(multisig)) == Some(multisig),
{
    let bytes = multisig_bytes(multisig);
    let tail = bytes.subrange(3, 355);
    assert(tail =~= signers_bytes(multisig.signers));
    let read = Seq::new(11, |k: int| pubkey_of(tail.subrange(32 * k, 32 * k + 32)));
    assert forall|k: int| 0 <= k < 11 implies read[k] == multisig.signers[k] by {
        assert(tail.subrange(32 * k, 32 * k + 32) =~= multisig.signers[k]@);
        lemma_pubkey_of(multisig.signers[k]);
    }
    assert(read =~= multisig.signers@);
    lemma_signer_array(multisig.signers);
}

/// Every record is read back from its bytes.
pub proof fn lemma_account_data_round_trip(data: AccountData)
    ensures
        account_data_of(account_data_bytes(data)) == data,
{
    match data {
        AccountData::Empty => {},
        AccountData::Mint(mint) => {
            lemma_mint_round_trip(mint);
        },
        AccountData::Account(holding) => {
            lemma_holding_round_trip(holding);
        },
        AccountData::Multisig(multisig) => {
            lemma_multisig_round_trip(multisig);
        },
    }
}

/// Spells a holding in 165 bytes, and five more where its owner is immutable.
pub fn pack_holding(holding: &Account) -> (bytes: Vec<u8>)
    ensures
        bytes@ == holding_bytes(*holding),
{
    let mut bytes: Vec<u8> = Vec::new();
    append(&mut bytes, holding.mint.as_slice());
    append(&mut bytes, holding.owner.as_slice());
    let amount = pack_u64(holding.amount);
    append(&mut bytes, amount.as_slice());
    pack_option_key(&mut bytes, &holding.delegate);
    bytes.push(
        match holding.state {
            AccountState::Uninitialized => 0,
            AccountState::Initialized => 1,
            AccountState::Frozen => 2,
        },
    );
    pack_option_u64(&mut bytes, &holding.is_native);
    let delegated_amount = pack_u64(holding.delegated_amount);
    append(&mut bytes, delegated_amount.as_slice());
    pack_option_key(&mut bytes, &holding.close_authority);
    assert(bytes@ =~= holding_base_bytes(*holding));
    if holding.immutable_owner {
        bytes.push(2);
        bytes.push(7);
        bytes.push(0);
        bytes.push(0);
        bytes.push(0);
        assert(bytes@ =~= holding_base_bytes(*holding) + immutable_owner_bytes());
    }
    bytes
}

/// Reads whether the owner is immutable from the bytes after the first 165.
fn unpack_immutable_owner(bytes: &[u8]) -> (flag: Option<bool>)
    ensures
        flag == immutable_owner_of(bytes@),
{
    if bytes.len() == 0 {
        return Some(false);
    }
    if bytes.len() != 5 {
        return None;
    }
    if bytes[0] == 2 && bytes[1] == 7 && bytes[2] == 0 && bytes[3] == 0 && bytes[4] == 0 {
        assert(bytes@ =~= immutable_owner_bytes());
        Some(true)
    } else if bytes[0] == 0 && bytes[1] == 0 && bytes[2] == 0 && bytes[3] == 0 && bytes[4] == 0 {
        assert(bytes@ =~= seq![0u8, 0u8, 0u8, 0u8, 0u8]);
        assert(bytes@[0] != immutable_owner_bytes()[0]);
        Some(false)
    } else {
        let ghost zeros = seq![0u8, 0u8, 0u8, 0u8, 0u8];
        let ghost marks = immutable_owner_bytes();
        assert(bytes@[0] != zeros[0] || bytes@[1] != zeros[1] || bytes@[2] != zeros[2]
            || bytes@[3] != zeros[3] || bytes@[4] != zeros[4]);
        assert(bytes@[0] != marks[0] || bytes@[1] != marks[1] || bytes@[2] != marks[2]
            || bytes@[3] != marks[3] || bytes@[4] != marks[4]);
        None
    }
}

/// Reads the state of a holding from a byte.
fn unpack_state(byte: u8) -> (state: Option<AccountState>)
    ensures
        state == state_of(byte),
{
    if byte == 0 {
        Some(AccountState::Uninitialized)
    } else if byte == 1 {
        Some(AccountState::Initialized)
    } else if byte == 2 {
        Some(AccountState::Frozen)
    } else {
        None
    }
}

/// Reads a holding from its bytes.
pub fn unpack_holding(bytes: &[u8]) -> (holding: Option<Account>)
    ensures
        holding == holding_of(bytes@),
{
    if bytes.len() < ACCOUNT_LEN {
        return None;
    }
    let delegate = unpack_option_key(slice_subrange(bytes, 72, 108))?;
    let state = unpack_state(bytes[108])?;
    let is_native = unpack_option_u64(slice_subrange(bytes, 109, 121))?;
    let close_authority = unpack_option_key(slice_subrange(bytes, 129, 165))?;
    let immutable_owner = unpack_immutable_owner(slice_subrange(bytes, 165, bytes.len()))?;
    Some(
        Account {
            mint: unpack_pubkey(slice_subrange(bytes, 0, 32)),
            owner: unpack_pubkey(slice_subrange(bytes, 32, 64)),
            amount: unpack_u64(slice_subrange(bytes, 64, 72)),
            delegate,
            state,
            is_native,
            delegated_amount: unpack_u64(slice_subrange(bytes, 121, 129)),
            close_authority,
            immutable_owner,
        },
    )
}

/// Spells a multisignature in 355 bytes.
pub fn pack_multisig(multisig: &Multisig) -> (bytes: Vec<u8>)
    ensures
        bytes@ == multisig_bytes(*multisig),
{
    let mut bytes: Vec<u8> = Vec::new();
    bytes.push(multisig.m);
    bytes.push(multisig.n);
    bytes.push(if multisig.is_initialized {
        1
    } else {
        0
    });
    let ghost head = bytes@;
    let mut k: usize = 0;
    while k < 11
        invariant
            k <= 11,
            head == seq![multisig.m, multisig.n, bool_byte(multisig.is_initialized)],
            bytes@ == head + signers_bytes(multisig.signers).take(32 * k),
        decreases 11 - k,
    {
        append(&mut bytes, multisig.signers[k].as_slice());
        assert(bytes@ =~= head + signers_bytes(multisig.signers).take(32 * (k + 1)));
        k += 1;
    }
    assert(signers_bytes(multisig.signers).take(352) =~= signers_bytes(multisig.signers));
    bytes
}

/// Reads a multisignature from its 355 bytes.
pub fn unpack_multisig(bytes: &[u8]) -> (multisig: Option<Multisig>)
    ensures
        multisig == multisig_of(bytes@),
{
    if bytes.len() != MULTISIG_LEN {
        return None;
    }
    let is_initialized = unpack_bool(bytes[2])?;
    let tail = slice_subrange(bytes, 3, 355);
    let mut signers: [Pubkey; 11] = [SYSTEM_PROGRAM_ID; 11];
    let mut k: usize = 0;
    while k < 11
        invariant
            k <= 11,
            tail@.len() == 352,
            forall|j: int|
                0 <= j < k ==> signers@[j] == pubkey_of(tail@.subrange(32 * j, 32 * j + 32)),
        decreases 11 - k,
    {
        signers[k] = unpack_pubkey(slice_subrange(tail, 32 * k, 32 * k + 32));
        k += 1;
    }
    proof {
        assert(signers@ =~= Seq::new(
            11,
            |k: int| pubkey_of(tail@.subrange(32 * k, 32 * k + 32)),
        ));
        lemma_signer_array(signers);
    }
    Some(Multisig { m: bytes[0], n: bytes[1], is_initialized, signers })
}

/// Spells a record in bytes.
pub fn pack_account_data(data: &AccountData) -> (bytes: Vec<u8>)
    ensures
        bytes@ == account_data_bytes(*data),
{
    match data {
        AccountData::Empty => Vec::new(),
        AccountData::Mint(mint) => pack_mint(mint),
        AccountData::Account(holding) => pack_holding(holding),
        AccountData::Multisig(multisig) => pack_multisig(multisig),
    }
}

/// Reads the record that the data of an account spell.
pub fn unpack_account_data(bytes: &[u8]) -> (data: AccountData)
    ensures
        data == account_data_of(bytes@),
{
    let len = bytes.len();
    if len == MINT_LEN {
        match unpack_mint(bytes) {
            Some(mint) => AccountData::Mint(mint),
            None => AccountData::Empty,
        }
    } else if len == ACCOUNT_LEN || len == IMMUTABLE_HOLDING_LEN {
        match unpack_holding(bytes) {
            Some(holding) => AccountData::Account(holding),
            None => AccountData::Empty,
        }
    } else if len == MULTISIG_LEN {
        match unpack_multisig(bytes) {
            Some(multisig) => AccountData::Multisig(multisig),
            None => AccountData::Empty,
        }
    } else {
        AccountData::Empty
    }
}

} // verus!
