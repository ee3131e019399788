use vstd::prelude::*;

verus! {

/// A 32-byte account address.
#[derive(Clone, Copy, Debug, PartialEq, Eq, Hash)]
pub struct Address {
    pub bytes: [u8; 32],
}

impl View for Address {
    type V = Seq<u8>;

    open spec fn view(&self) -> Seq<u8> {
        self.bytes@
    }
}

impl Address {
    pub fn new(bytes: [u8; 32]) -> (r: Address)
        ensures
            r@ == bytes@,
    {
        Address { bytes }
    }

    /// Byte-wise equality of two addresses.
    pub fn same_as(&self, other: &Address) -> (r: bool)
        ensures
            r == (self@ == other@),
    {
        let mut i: usize = 0;
        while i < 32
            invariant
                0 <= i <= 32,
                self@.len() == 32,
                other@.len() == 32,
                forall|j: int| 0 <= j < i ==> self@[j] == other@[j],
            decreases 32 - i,
        {
            if self.bytes[i] != other.bytes[i] {
                return false;
            }
            i = i + 1;
        }
        assert(self@ =~= other@);
        true
    }
}

/// The address of the clock system value, `SysvarC1ock11111111111111111111111111111111`.
pub open spec fn clock_sysvar_id() -> Seq<u8> {
    seq![
        6u8, 167, 213, 23, 24, 199, 116, 201, 40, 86, 99, 152, 105, 29, 94, 182,
        139, 94, 184, 163, 155, 75, 109, 92, 115, 85, 91, 33, 0, 0, 0, 0,
    ]
}

/// The owner of every system value, `Sysvar1111111111111111111111111111111111111`.
pub open spec fn sysvar_owner_id() -> Seq<u8> {
    seq![
        6u8, 167, 213, 23, 24, 117, 247, 41, 199, 61, 147, 64, 143, 33, 97, 32,
        6, 126, 216, 140, 118, 224, 140, 40, 127, 193, 148, 96, 0, 0, 0, 0,
    ]
}

/// Relies on `solana_sdk_ids::sysvar::clock::id`, declared there as
/// `SysvarC1ock11111111111111111111111111111111`; these are its base-58 digits
/// decoded to bytes.
#[verifier::external_body]
pub fn clock_address() -> (r: Address)
    ensures
        r@ == clock_sysvar_id(),
{
    Address { bytes: solana_sdk_ids::sysvar::clock::id().to_bytes() }
}

/// Relies on `solana_sdk_ids::sysvar::id`, declared there as
/// `Sysvar1111111111111111111111111111111111111`; these are its base-58 digits
/// decoded to bytes.
#[verifier::external_body]
pub fn sysvar_owner() -> (r: Address)
    ensures
        r@ == sysvar_owner_id(),
{
    Address { bytes: solana_sdk_ids::sysvar::id().to_bytes() }
}

/// The address of the system program, `11111111111111111111111111111111`:
/// thirty-two zero bytes.
pub open spec fn system_program_id() -> Seq<u8> {
    Seq::new(32, |i: int| 0u8)
}

/// Relies on `solana_sdk_ids::system_program::id`, declared there as
/// `11111111111111111111111111111111`, which decodes to thirty-two zero bytes.
#[verifier::external_body]
pub fn system_program() -> (r: Address)
    ensures
        r@ == system_program_id(),
{
    Address { bytes: solana_sdk_ids::system_program::id().to_bytes() }
}

} // verus!
