//! Identities and derived addresses.

use anchor_lang::prelude::Pubkey;
use vstd::prelude::*;

verus! {

/// The 32 bytes that name a signer, a program or an account.
#[derive(Clone, Copy, Debug, PartialEq, Eq, Hash)]
pub struct Address {
    pub bytes: [u8; 32],
}

impl View for Address {
    type V = Seq<u8>;

    open spec fn view(&self) -> Seq<u8> {
        self.bytes@
    }
}

impl Address {
    /// Whether the two are the same 32 bytes.
    pub fn same_as(&self, other: &Address) -> (same: bool)
        ensures
            same == (self@ == other@),
    {
        let mut i: usize = 0;
        while i < 32
            invariant
                i <= 32,
                forall|j: int| 0 <= j < i ==> self.bytes@[j] == other.bytes@[j],
            decreases 32 - i,
        {
            if self.bytes[i] != other.bytes[i] {
                return false;
            }
            i += 1;
        }
        assert(self@ =~= other@);
        true
    }
}

/// The text that `Pubkey`'s `Display` gives for a key with these bytes: their
/// base-58 encoding in the Bitcoin alphabet.
pub uninterp spec fn base58_text(bytes: Seq<u8>) -> Seq<char>;

/// Calls `Pubkey::to_string` on the key made of the address's bytes. Trusted:
/// the text depends on the 32 bytes alone.
#[verifier::external_body]
pub(crate) fn address_text(address: &Address) -> (text: String)
    ensures
        text@ == base58_text(address@),
{
    Pubkey::new_from_array(address.bytes).to_string()
}

/// The address that `Pubkey::create_program_address` derives for a program
/// from one seed followed by a seed byte, or `None` where these derive none.
pub uninterp spec fn program_address(seed: Seq<u8>, bump: u8, program_id: Seq<u8>) -> Option<
    Seq<u8>,
>;

/// Calls `Pubkey::create_program_address` with the seeds `seed` and `[bump]`
/// for the program whose key has the bytes of `program_id`. Trusted: the
/// outcome depends on these bytes alone. `None` stands for the one way the
/// call fails on a seed of at most 32 bytes: the bytes derived are a point of
/// the curve, so no address.
#[verifier::external_body]
pub(crate) fn create_program_address(seed: &[u8], bump: u8, program_id: &Address) -> (address:
    Option<Address>)
    requires
        seed@.len() <= 32,
    ensures
        match address {
            Some(a) => program_address(seed@, bump, program_id@) == Some(a@),
            None => program_address(seed@, bump, program_id@) is None,
        },
{
    let program = Pubkey::new_from_array(program_id.bytes);
    match Pubkey::create_program_address(&[seed, &[bump]], &program) {
        Ok(key) => Some(Address { bytes: key.to_bytes() }),
        Err(_) => None,
    }
}

/// The seed from which the board's address is derived: `base_account22`.
pub const BASE_ACCOUNT_SEED: [u8; 14] = [
    98, 97, 115, 101, 95, 97, 99, 99, 111, 117, 110, 116, 50, 50,
];

/// The bytes of the program's own address, whose text is
/// `EGWf3mBuwhvjmR134QfzKGMo8EgtsC4ieMP3D6mxWFXq`.
pub const PROGRAM_ID: [u8; 32] = [
    197, 33, 44, 160, 16, 37, 109, 232, 146, 179, 120, 46, 57, 227, 75, 99, 203, 20, 189, 94, 210,
    6, 92, 18, 104, 18, 166, 240, 195, 98, 190, 172,
];

/// The program's own address.
pub fn id() -> (id: Address)
    ensures
        id.bytes == PROGRAM_ID,
{
    Address { bytes: PROGRAM_ID }
}

/// The one address at which `program_id` keeps its board, as derived from
/// [`BASE_ACCOUNT_SEED`] and the seed byte `bump`; `None` for a seed byte
/// that derives no address.
pub fn base_account_address(program_id: &Address, bump: u8) -> (address: Option<Address>)
    ensures
        match address {
            Some(a) => program_address(BASE_ACCOUNT_SEED@, bump, program_id@) == Some(a@),
            None => program_address(BASE_ACCOUNT_SEED@, bump, program_id@) is None,
        },
{
    create_program_address(BASE_ACCOUNT_SEED.as_slice(), bump, program_id)
}

/// Whether `address` is where `program_id` keeps the board whose seed byte
/// is `bump`. The board stores its seed byte so that this can be asked again
/// on every later call.
pub fn is_base_account_address(program_id: &Address, bump: u8, address: &Address) -> (is: bool)
    ensures
        is == (program_address(BASE_ACCOUNT_SEED@, bump, program_id@) == Some(address@)),
{
    match base_account_address(program_id, bump) {
        Some(derived) => derived.same_as(address),
        None => false,
    }
}

} // verus!
