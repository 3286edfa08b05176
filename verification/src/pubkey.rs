//! Addresses of accounts.

use vstd::prelude::*;

verus! {

/// Number of bytes in an address.
pub const PUBKEY_BYTES: usize = 32;

/// The address of an account: 32 bytes.
#[derive(Clone, Copy, Debug, Eq, Hash, Default)]
pub struct Pubkey(pub [u8; 32]);

impl View for Pubkey {
    type V = Seq<u8>;

    open spec fn view(&self) -> Seq<u8> {
        self.0@
    }
}

impl PartialEq for Pubkey {
    fn eq(&self, other: &Pubkey) -> (r: bool) {
        let mut i: usize = 0;
        while i < 32
            invariant
                i <= 32,
                forall|j: int| 0 <= j < i ==> self.0[j] == other.0[j],
            decreases 32 - i,
        {
            if self.0[i] != other.0[i] {
                return false;
            }
            i = i + 1;
        }
        assert(self.0 =~= other.0);
        true
    }
}

impl vstd::std_specs::cmp::PartialEqSpecImpl for Pubkey {
    open spec fn obeys_eq_spec() -> bool {
        true
    }

    open spec fn eq_spec(&self, other: &Pubkey) -> bool {
        *self == *other
    }
}

impl Pubkey {
    /// Two addresses with the same bytes are the same address.
    pub proof fn lemma_view_injective(a: Pubkey, b: Pubkey)
        requires
            a@ == b@,
        ensures
            a == b,
    {
        assert(a.0 =~= b.0);
    }

    /// The address with the given 32 bytes.
    pub open spec fn spec_from_bytes(bytes: Seq<u8>) -> Pubkey {
        choose|k: Pubkey| k@ == bytes
    }

    /// An address is the address with its bytes.
    pub proof fn lemma_from_bytes(k: Pubkey)
        ensures
            Pubkey::spec_from_bytes(k@) == k,
            k@.len() == 32,
    {
        Pubkey::lemma_view_injective(Pubkey::spec_from_bytes(k@), k);
    }

    /// The address with the given bytes.
    pub fn new_from_array(bytes: [u8; 32]) -> (r: Pubkey)
        ensures
            r.0 == bytes,
            r == Pubkey::spec_from_bytes(bytes@),
    {
        let r = Pubkey(bytes);
        proof {
            Pubkey::lemma_from_bytes(r);
        }
        r
    }

    /// The bytes of the address.
    pub fn to_bytes(&self) -> (r: [u8; 32])
        ensures
            r == self.0,
    {
        self.0
    }
}

/// The address of the host's clock account, `SysvarC1ock11111111111111111111111111111111`.
pub open spec fn spec_clock_id() -> Pubkey {
    Pubkey(
        [
            6u8,
            167u8,
            213u8,
            23u8,
            24u8,
            199u8,
            116u8,
            201u8,
            40u8,
            86u8,
            99u8,
            152u8,
            105u8,
            29u8,
            94u8,
            182u8,
            139u8,
            94u8,
            184u8,
            163u8,
            155u8,
            75u8,
            109u8,
            92u8,
            115u8,
            85u8,
            91u8,
            33u8,
            0u8,
            0u8,
            0u8,
            0u8,
        ],
    )
}

/// The address of the host's clock account.
pub fn clock_id() -> (r: Pubkey)
    ensures
        r == spec_clock_id(),
{
    Pubkey(
        [
            6u8,
            167u8,
            213u8,
            23u8,
            24u8,
            199u8,
            116u8,
            201u8,
            40u8,
            86u8,
            99u8,
            152u8,
            105u8,
            29u8,
            94u8,
            182u8,
            139u8,
            94u8,
            184u8,
            163u8,
            155u8,
            75u8,
            109u8,
            92u8,
            115u8,
            85u8,
            91u8,
            33u8,
            0u8,
            0u8,
            0u8,
            0u8,
        ],
    )
}

/// The address of the host's rent account, `SysvarRent111111111111111111111111111111111`.
pub open spec fn spec_rent_id() -> Pubkey {
    Pubkey(
        [
            6u8,
            167u8,
            213u8,
            23u8,
            25u8,
            44u8,
            92u8,
            81u8,
            33u8,
            140u8,
            201u8,
            76u8,
            61u8,
            74u8,
            241u8,
            127u8,
            88u8,
            218u8,
            238u8,
            8u8,
            155u8,
            161u8,
            253u8,
            68u8,
            227u8,
            219u8,
            217u8,
            138u8,
            0u8,
            0u8,
            0u8,
            0u8,
        ],
    )
}

/// The address of the host's rent account.
pub fn rent_id() -> (r: Pubkey)
    ensures
        r == spec_rent_id(),
{
    Pubkey(
        [
            6u8,
            167u8,
            213u8,
            23u8,
            25u8,
            44u8,
            92u8,
            81u8,
            33u8,
            140u8,
            201u8,
            76u8,
            61u8,
            74u8,
            241u8,
            127u8,
            88u8,
            218u8,
            238u8,
            8u8,
            155u8,
            161u8,
            253u8,
            68u8,
            227u8,
            219u8,
            217u8,
            138u8,
            0u8,
            0u8,
            0u8,
            0u8,
        ],
    )
}

/// The address of the token program, `TokenkegQfeZyiNwAJbNbGKPFXCWuBvf9Ss623VQ5DA`.
pub open spec fn spec_token_program_id() -> Pubkey {
    Pubkey(
        [
            6u8,
            221u8,
            246u8,
            225u8,
            215u8,
            101u8,
            161u8,
            147u8,
            217u8,
            203u8,
            225u8,
            70u8,
            206u8,
            235u8,
            121u8,
            172u8,
            28u8,
            180u8,
            133u8,
            237u8,
            95u8,
            91u8,
            55u8,
            145u8,
            58u8,
            140u8,
            245u8,
            133u8,
            126u8,
            255u8,
            0u8,
            169u8,
        ],
    )
}

/// The address of the token program.
pub fn token_program_id() -> (r: Pubkey)
    ensures
        r == spec_token_program_id(),
{
    Pubkey(
        [
            6u8,
            221u8,
            246u8,
            225u8,
            215u8,
            101u8,
            161u8,
            147u8,
            217u8,
            203u8,
            225u8,
            70u8,
            206u8,
            235u8,
            121u8,
            172u8,
            28u8,
            180u8,
            133u8,
            237u8,
            95u8,
            91u8,
            55u8,
            145u8,
            58u8,
            140u8,
            245u8,
            133u8,
            126u8,
            255u8,
            0u8,
            169u8,
        ],
    )
}

/// The address of this program, `stkarvwmSzv2BygN5e2LeTwimTczLWHCKPKGC2zVLiq`.
pub open spec fn spec_staking_program_id() -> Pubkey {
    Pubkey(
        [
            13u8,
            9u8,
            142u8,
            85u8,
            245u8,
            106u8,
            62u8,
            234u8,
            30u8,
            225u8,
            88u8,
            125u8,
            88u8,
            26u8,
            53u8,
            152u8,
            78u8,
            161u8,
            46u8,
            203u8,
            181u8,
            1u8,
            233u8,
            36u8,
            80u8,
            61u8,
            222u8,
            242u8,
            25u8,
            206u8,
            45u8,
            246u8,
        ],
    )
}

/// The address of this program.
pub fn staking_program_id() -> (r: Pubkey)
    ensures
        r == spec_staking_program_id(),
{
    Pubkey(
        [
            13u8,
            9u8,
            142u8,
            85u8,
            245u8,
            106u8,
            62u8,
            234u8,
            30u8,
            225u8,
            88u8,
            125u8,
            88u8,
            26u8,
            53u8,
            152u8,
            78u8,
            161u8,
            46u8,
            203u8,
            181u8,
            1u8,
            233u8,
            36u8,
            80u8,
            61u8,
            222u8,
            242u8,
            25u8,
            206u8,
            45u8,
            246u8,
        ],
    )
}

/// The address of this program.
pub fn id() -> (r: Pubkey)
    ensures
        r == spec_staking_program_id(),
{
    staking_program_id()
}

/// Whether an address is that of this program.
pub fn check_id(key: &Pubkey) -> (r: bool)
    ensures
        r == (*key == spec_staking_program_id()),
{
    *key == staking_program_id()
}

} // verus!
