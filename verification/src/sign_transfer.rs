//! The signing relay: it forwards an ERC-721 `transferFrom` to the EVM on
//! behalf of its caller, so that the EVM sees the relay, not the caller's
//! caller, as the sender.
use vstd::prelude::*;
use crate::{AccountId, EvmContractAddress};
use crate::encoding::{abi_address_word, abi_encode_address_address_uint, abi_uint_word, be_u32_byte};

verus! {

/// The identifier of the EVM among the chain's virtual machines.
pub const EVM_ID: u8 = 0x0F;

/// The four-byte selector of `transferFrom(address,address,uint256)`.
pub open spec fn transfer_from_selector() -> Seq<u8> {
    seq![0x23u8, 0xb8u8, 0x72u8, 0xddu8]
}

/// The EVM address that an account of the chain maps to: its first twenty
/// bytes.
pub open spec fn h160_of(account: Seq<u8>) -> Seq<u8> {
    account.subrange(0, 20)
}

/// The call data of `transferFrom(from, to, token_id)`.
pub open spec fn transfer_from_input(from: Seq<u8>, to: Seq<u8>, token_id: u32) -> Seq<u8> {
    transfer_from_selector() + abi_address_word(from) + abi_address_word(to) + abi_uint_word(token_id)
}

/// The relay's errors.
#[derive(Debug)]
pub enum STError {
    Custom(String),
}

/// A call into another virtual machine, for the host to make.
pub struct XvmCall {
    /// The virtual machine to call.
    pub vm_id: u8,
    /// The contract to call there.
    pub target: Vec<u8>,
    /// The call data.
    pub input: Vec<u8>,
}

/// The relay contract. It holds no state.
pub struct SignTransfer {}

impl SignTransfer {
    pub fn new() -> (r: Self) {
        SignTransfer {}
    }

    /// The EVM call that transfers the token `id` of the ERC-721 contract
    /// at `evm_address` from the relay's caller to `to`. The data argument
    /// is not used.
    pub fn transfer(&mut self, caller: AccountId, evm_address: EvmContractAddress, to: AccountId, id: u32, _data: Vec<u8>) -> (c: XvmCall)
        ensures
            c.vm_id == EVM_ID,
            c.target@ == evm_address@,
            c.input@ == transfer_from_input(h160_of(caller@), h160_of(to@), id),
    {
        let input = Self::transfer_from_encode(Self::h160(&caller), Self::h160(&to), id);
        let mut target: Vec<u8> = Vec::new();
        let mut i: usize = 0;
        while i < 20
            invariant
                i <= 20,
                evm_address@.len() == 20,
                target@ == evm_address@.subrange(0, i as int),
            decreases 20 - i,
        {
            target.push(evm_address[i]);
            assert(evm_address@.subrange(0, i as int).push(evm_address@[i as int]) =~= evm_address@.subrange(0, i + 1));
            i = i + 1;
        }
        assert(evm_address@.subrange(0, 20) =~= evm_address@);
        XvmCall { vm_id: EVM_ID, target, input }
    }

    /// What the relay answers once the EVM call has been made: success, or
    /// the error `"transfer failed"`.
    pub fn transfer_result(xvm_succeeded: bool) -> (r: Result<(), STError>)
        ensures
            r is Ok <==> xvm_succeeded,
            r matches Err(STError::Custom(m)) ==> m@ == "transfer failed"@,
    {
        if xvm_succeeded {
            Ok(())
        } else {
            Err(STError::Custom("transfer failed".to_string()))
        }
    }

    /// The call data of `transferFrom(from, to, token_id)`: the selector,
    /// then the three arguments ABI-encoded.
    pub fn transfer_from_encode(from: [u8; 20], to: [u8; 20], token_id: u32) -> (r: Vec<u8>)
        ensures
            r@ == transfer_from_input(from@, to@, token_id),
    {
        let mut encoded: Vec<u8> = vec![0x23u8, 0xb8u8, 0x72u8, 0xddu8];
        let mut args = abi_encode_address_address_uint(from, to, token_id);
        assert(encoded@ =~= transfer_from_selector());
        encoded.append(&mut args);
        encoded
    }

    /// The EVM address of an account: its first twenty bytes.
    pub fn h160(from: &AccountId) -> (r: [u8; 20])
        ensures
            r@ == h160_of(from@),
    {
        let mut dest: [u8; 20] = [0u8; 20];
        let mut i: usize = 0;
        while i < 20
            invariant
                i <= 20,
                dest@.len() == 20,
                from@.len() == 32,
                forall|j: int| 0 <= j < i ==> dest@[j] == from@[j],
            decreases 20 - i,
        {
            dest[i] = from[i];
            i = i + 1;
        }
        assert(dest@ =~= h160_of(from@));
        dest
    }
}

/// The call data of `transferFrom` is 100 bytes: the selector, then the
/// sender in bytes 16 to 36, the receiver in bytes 48 to 68 and the token
/// id in the last four bytes, big-endian, the rest zero.
pub proof fn law_transfer_from_input_layout(from: Seq<u8>, to: Seq<u8>, token_id: u32)
    requires
        from.len() == 20,
        to.len() == 20,
    ensures
        transfer_from_input(from, to, token_id).len() == 100,
        transfer_from_input(from, to, token_id).subrange(0, 4) == transfer_from_selector(),
        transfer_from_input(from, to, token_id).subrange(16, 36) == from,
        transfer_from_input(from, to, token_id).subrange(48, 68) == to,
        transfer_from_input(from, to, token_id).subrange(96, 100) == seq![
            be_u32_byte(token_id, 0),
            be_u32_byte(token_id, 1),
            be_u32_byte(token_id, 2),
            be_u32_byte(token_id, 3),
        ],
        forall|i: int|
            (4 <= i < 16 || 36 <= i < 48 || 68 <= i < 96) ==> #[trigger] transfer_from_input(from, to, token_id)[i] == 0,
{
    let s = transfer_from_input(from, to, token_id);
    assert(s.subrange(0, 4) =~= transfer_from_selector());
    assert(s.subrange(16, 36) =~= from);
    assert(s.subrange(48, 68) =~= to);
    assert(s.subrange(96, 100) =~= seq![
        be_u32_byte(token_id, 0),
        be_u32_byte(token_id, 1),
        be_u32_byte(token_id, 2),
        be_u32_byte(token_id, 3),
    ]);
}

proof fn lemma_be_u32_bytes_determine(a: u32, b: u32)
    requires
        be_u32_byte(a, 0) == be_u32_byte(b, 0),
        be_u32_byte(a, 1) == be_u32_byte(b, 1),
        be_u32_byte(a, 2) == be_u32_byte(b, 2),
        be_u32_byte(a, 3) == be_u32_byte(b, 3),
    ensures
        a == b,
{
    assert(a / 0x1000000 == b / 0x1000000);
    assert((a / 0x10000) % 0x100 == (b / 0x10000) % 0x100);
    assert((a / 0x100) % 0x100 == (b / 0x100) % 0x100);
    assert(a % 0x100 == b % 0x100);
    assert(a == b) by (bit_vector)
        requires
            a / 0x1000000 == b / 0x1000000,
            (a / 0x10000) % 0x100 == (b / 0x10000) % 0x100,
            (a / 0x100) % 0x100 == (b / 0x100) % 0x100,
            a % 0x100 == b % 0x100,
    ;
}

/// The call data of `transferFrom` determines its arguments: distinct
/// senders, receivers or token ids give distinct call data.
pub proof fn law_transfer_from_input_injective(
    from: Seq<u8>,
    to: Seq<u8>,
    token_id: u32,
    from2: Seq<u8>,
    to2: Seq<u8>,
    token_id2: u32,
)
    requires
        from.len() == 20,
        to.len() == 20,
        from2.len() == 20,
        to2.len() == 20,
        transfer_from_input(from, to, token_id) == transfer_from_input(from2, to2, token_id2),
    ensures
        from == from2,
        to == to2,
        token_id == token_id2,
{
    law_transfer_from_input_layout(from, to, token_id);
    law_transfer_from_input_layout(from2, to2, token_id2);
    let s = transfer_from_input(from, to, token_id);
    let t = seq![
        be_u32_byte(token_id, 0),
        be_u32_byte(token_id, 1),
        be_u32_byte(token_id, 2),
        be_u32_byte(token_id, 3),
    ];
    let t2 = seq![
        be_u32_byte(token_id2, 0),
        be_u32_byte(token_id2, 1),
        be_u32_byte(token_id2, 2),
        be_u32_byte(token_id2, 3),
    ];
    assert(t == t2);
    assert(t[0] == t2[0] && t[1] == t2[1] && t[2] == t2[2] && t[3] == t2[3]);
    lemma_be_u32_bytes_determine(token_id, token_id2);
}

} // verus!
