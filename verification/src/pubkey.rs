//! Account addresses.

use vstd::prelude::*;

verus! {

/// The address of an account: thirty-two bytes.
#[derive(Clone, Copy, Debug, Hash)]
pub struct Pubkey {
    pub bytes: [u8; 32],
}

impl View for Pubkey {
    type V = Seq<u8>;

    open spec fn view(&self) -> Seq<u8> {
        self.bytes@
    }
}

/// The address whose bytes are `bytes`, where there are thirty-two of them.
pub open spec fn pubkey_of(bytes: Seq<u8>) -> Pubkey {
    choose|key: Pubkey| key@ == bytes
}

/// An address is given by its bytes.
pub proof fn lemma_pubkey_of(key: Pubkey)
    ensures
        pubkey_of(key@) == key,
{
    let chosen = pubkey_of(key@);
    assert(chosen@ == key@);
    assert(chosen.bytes == key.bytes);
}

/// An array whose first `count` bytes are those of `bytes`.
spec fn array_of(bytes: Seq<u8>, count: nat) -> [u8; 32]
    decreases count,
{
    if count == 0 {
        vstd::array::spec_array_fill_for_copy_type::<u8, 32>(0u8)
    } else {
        vstd::array::spec_array_update(
            array_of(bytes, (count - 1) as nat),
            count - 1,
            bytes[count - 1],
        )
    }
}

proof fn lemma_array_of(bytes: Seq<u8>, count: nat)
    requires
        count <= 32,
    ensures
        forall|i: int| 0 <= i < count ==> #[trigger] array_of(bytes, count)@[i] == bytes[i],
    decreases count,
{
    if count > 0 {
        lemma_array_of(bytes, (count - 1) as nat);
        let shorter = array_of(bytes, (count - 1) as nat);
        assert(array_of(bytes, count)@ == shorter@.update(count - 1, bytes[count - 1]));
        assert forall|i: int| 0 <= i < count implies #[trigger] array_of(bytes, count)@[i]
            == bytes[i] by {
            assert(i < count - 1 ==> shorter@[i] == bytes[i]);
        }
    }
}

/// Any thirty-two bytes are an address.
pub proof fn law_thirty_two_bytes_are_an_address(bytes: Seq<u8>)
    requires
        bytes.len() == 32,
    ensures
        pubkey_of(bytes)@ == bytes,
{
    lemma_array_of(bytes, 32);
    let key = Pubkey { bytes: array_of(bytes, 32) };
    assert(key@ =~= bytes);
    lemma_pubkey_of(key);
}

/// Two addresses are equal exactly when their bytes are.
pub proof fn lemma_pubkey_ext(a: Pubkey, b: Pubkey)
    ensures
        a == b <==> a@ == b@,
{
    if a@ == b@ {
        assert(a.bytes == b.bytes);
    }
}

/// An address is seen as its thirty-two bytes, in order.
pub proof fn law_view_is_the_bytes(key: Pubkey)
    ensures
        key@.len() == 32,
        forall|i: int| 0 <= i < 32 ==> #[trigger] key@[i] == key.bytes[i],
{
}

impl Pubkey {
    pub fn new_from_array(bytes: [u8; 32]) -> (key: Self)
        ensures
            key@ == bytes@,
            key.bytes == bytes,
    {
        Pubkey { bytes }
    }

    pub fn to_bytes(&self) -> (bytes: [u8; 32])
        ensures
            bytes@ == self@,
            bytes == self.bytes,
    {
        self.bytes
    }
}

impl PartialEq for Pubkey {
    fn eq(&self, other: &Self) -> (same: bool) {
        let mut i: usize = 0;
        while i < 32
            invariant
                i <= 32,
                forall|j: int| 0 <= j < i ==> self.bytes@[j] == other.bytes@[j],
            decreases 32 - i,
        {
            if self.bytes[i] != other.bytes[i] {
                return false;
            }
            i = i + 1;
        }
        proof {
            assert(self@ =~= other@);
            lemma_pubkey_ext(*self, *other);
        }
        true
    }
}

impl vstd::std_specs::cmp::PartialEqSpecImpl for Pubkey {
    open spec fn obeys_eq_spec() -> bool {
        true
    }

    open spec fn eq_spec(&self, other: &Self) -> bool {
        *self == *other
    }
}

impl Eq for Pubkey {

}

} // verus!
