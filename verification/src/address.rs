//! Account addresses.

use crate::uint256::lemma_split_unique;
use vstd::prelude::*;

verus! {

/// The number that a sequence of bytes spells in base 256, most significant
/// byte first.
pub open spec fn bytes_number(bytes: Seq<u8>) -> nat
    decreases bytes.len(),
{
    if bytes.len() == 0 {
        0
    } else {
        bytes_number(bytes.drop_last()) * 256 + bytes.last() as nat
    }
}

/// The number of sequences of `len` bytes: `256^len`.
pub open spec fn span(len: nat) -> nat
    decreases len,
{
    if len == 0 {
        1
    } else {
        256 * span((len - 1) as nat)
    }
}

/// The number that a sequence of bytes spells lies below the number of
/// sequences of its length.
pub proof fn lemma_bytes_number_bound(bytes: Seq<u8>)
    ensures
        bytes_number(bytes) < span(bytes.len()),
    decreases bytes.len(),
{
    if bytes.len() > 0 {
        lemma_bytes_number_bound(bytes.drop_last());
    }
}

/// Two sequences of bytes of one length that spell the same number are the
/// same.
pub proof fn lemma_bytes_number_injective(a: Seq<u8>, b: Seq<u8>)
    requires
        a.len() == b.len(),
        bytes_number(a) == bytes_number(b),
    ensures
        a == b,
    decreases a.len(),
{
    if a.len() > 0 {
        lemma_split_unique(
            a.last() as int,
            bytes_number(a.drop_last()) as int,
            b.last() as int,
            bytes_number(b.drop_last()) as int,
            256,
        );
        lemma_bytes_number_injective(a.drop_last(), b.drop_last());
        assert(a =~= a.drop_last().push(a.last()));
        assert(b =~= b.drop_last().push(b.last()));
    } else {
        assert(a =~= b);
    }
}

/// The address of an account: twenty bytes.
#[derive(Clone, Copy, Debug, PartialEq, Eq)]
pub struct Address {
    pub bytes: [u8; 20],
}

impl View for Address {
    type V = Seq<u8>;

    open spec fn view(&self) -> Seq<u8> {
        self.bytes@
    }
}

impl Address {
    /// The address with the given bytes.
    pub fn from_bytes(bytes: [u8; 20]) -> (r: Address)
        ensures
            r.bytes == bytes,
    {
        Address { bytes }
    }

    /// Whether this is the zero address, which stands for "no account".
    pub open spec fn is_zero(self) -> bool {
        forall|i: int| 0 <= i < 20 ==> self.bytes[i] == 0
    }

    /// The address as a number: its bytes read in base 256, most significant
    /// first.
    pub open spec fn number(self) -> nat {
        bytes_number(self.bytes@)
    }

    /// The number of an address lies below `256^20`.
    pub proof fn lemma_number_bound(self)
        ensures
            self.number() < span(20),
    {
        lemma_bytes_number_bound(self.bytes@);
    }

    /// Two addresses with the same number are the same.
    pub proof fn lemma_number_injective(self, other: Address)
        requires
            self.number() == other.number(),
        ensures
            self == other,
    {
        lemma_bytes_number_injective(self.bytes@, other.bytes@);
        assert(self.bytes =~= other.bytes);
    }
}

} // verus!
