use vstd::array::{spec_array_fill_for_copy_type, spec_array_update};
use vstd::prelude::*;
use vstd::std_specs::cmp::PartialEqSpecImpl;

verus! {

/// The 32-byte identifier of an account, a mint or a program.
///
/// Its view is the sequence of its bytes; two addresses are equal exactly when
/// their views are.
#[derive(Clone, Copy, Debug, Hash)]
pub struct Address {
    pub bytes: [u8; 32],
}

impl View for Address {
    type V = Seq<u8>;

    open spec fn view(&self) -> Seq<u8> {
        self.bytes@
    }
}

/// Lexicographic order on byte strings of equal length: at the first place
/// where they differ, `a` holds the smaller byte.
pub open spec fn lex_lt(a: Seq<u8>, b: Seq<u8>) -> bool {
    exists|i: int| #[trigger] differ_first_at(a, b, i) && a[i] < b[i]
}

/// `a` and `b` agree before place `i` and differ at it.
pub open spec fn differ_first_at(a: Seq<u8>, b: Seq<u8>, i: int) -> bool {
    &&& 0 <= i < a.len()
    &&& i < b.len()
    &&& a[i] != b[i]
    &&& forall|j: int| 0 <= j < i ==> a[j] == b[j]
}

impl PartialEq for Address {
    fn eq(&self, other: &Address) -> (same: bool) {
        let mut i: usize = 0;
        while i < 32
            invariant
                0 <= i <= 32,
                forall|j: int| 0 <= j < i ==> self.bytes@[j] == other.bytes@[j],
            decreases 32 - i,
        {
            if self.bytes[i] != other.bytes[i] {
                return false;
            }
            i += 1;
        }
        assert(self.bytes@ =~= other.bytes@);
        true
    }
}

impl Eq for Address {

}

impl PartialEqSpecImpl for Address {
    open spec fn obeys_eq_spec() -> bool {
        true
    }

    open spec fn eq_spec(&self, other: &Address) -> bool {
        self@ == other@
    }
}

impl Address {
    /// The address made of the given bytes.
    pub fn new(bytes: [u8; 32]) -> (address: Address)
        ensures
            address.bytes == bytes,
            address@ == bytes@,
    {
        Address { bytes }
    }

    /// Whether the two addresses are the same.
    pub fn same(&self, other: &Address) -> (same: bool)
        ensures
            same == (*self == *other),
    {
        proof {
            lemma_address_ext(*self, *other);
        }
        *self == *other
    }

    /// The order in which baskets keep their token types: lexicographic on the bytes.
    pub open spec fn spec_precedes(&self, other: &Address) -> bool {
        lex_lt(self@, other@)
    }

    /// Whether `self` comes strictly before `other` in lexicographic byte order.
    #[verifier::when_used_as_spec(spec_precedes)]
    pub fn precedes(&self, other: &Address) -> (before: bool)
        ensures
            before == lex_lt(self@, other@),
    {
        let mut i: usize = 0;
        while i < 32
            invariant
                0 <= i <= 32,
                forall|j: int| 0 <= j < i ==> self.bytes@[j] == other.bytes@[j],
            decreases 32 - i,
        {
            if self.bytes[i] != other.bytes[i] {
                let before = self.bytes[i] < other.bytes[i];
                proof {
                    let at = i as int;
                    assert(differ_first_at(self@, other@, at));
                    if !before {
                        assert forall|k: int| #[trigger]
                            differ_first_at(self@, other@, k) implies !(self@[k] < other@[k]) by {
                            lemma_first_difference_unique(self@, other@, at, k);
                        }
                    }
                }
                return before;
            }
            i += 1;
        }
        proof {
            assert(self@ =~= other@);
            lemma_lex_lt_irreflexive(self@);
        }
        false
    }

    /// The address's bytes as a vector.
    pub fn to_vec(&self) -> (out: Vec<u8>)
        ensures
            out@ == self@,
    {
        let mut out: Vec<u8> = Vec::new();
        let mut i: usize = 0;
        while i < 32
            invariant
                0 <= i <= 32,
                out@ == self@.take(i as int),
            decreases 32 - i,
        {
            out.push(self.bytes[i]);
            assert(self@.take(i + 1) =~= self@.take(i as int).push(self@[i as int]));
            i += 1;
        }
        assert(self@.take(32) =~= self@);
        out
    }
}

/// Equal views mean equal addresses.
pub proof fn lemma_address_ext(a: Address, b: Address)
    ensures
        (a@ == b@) <==> (a == b),
{
    if a@ == b@ {
        assert(a.bytes =~= b.bytes);
    }
}

/// Two byte strings first differ at one place only.
pub proof fn lemma_first_difference_unique(a: Seq<u8>, b: Seq<u8>, i: int, k: int)
    requires
        differ_first_at(a, b, i),
        differ_first_at(a, b, k),
    ensures
        i == k,
{
}

/// No byte string comes before itself.
pub proof fn lemma_lex_lt_irreflexive(a: Seq<u8>)
    ensures
        !lex_lt(a, a),
{
}

/// The order is transitive.
pub proof fn lemma_lex_lt_transitive(a: Seq<u8>, b: Seq<u8>, c: Seq<u8>)
    requires
        lex_lt(a, b),
        lex_lt(b, c),
    ensures
        lex_lt(a, c),
{
    let i = choose|i: int| #[trigger] differ_first_at(a, b, i) && a[i] < b[i];
    let k = choose|k: int| #[trigger] differ_first_at(b, c, k) && b[k] < c[k];
    let m = if i <= k {
        i
    } else {
        k
    };
    assert(differ_first_at(a, c, m));
}

/// Of two byte strings of the same length, one comes before the other or they are equal.
pub proof fn lemma_lex_lt_total(a: Seq<u8>, b: Seq<u8>)
    requires
        a.len() == b.len(),
    ensures
        lex_lt(a, b) || lex_lt(b, a) || a == b,
    decreases a.len(),
{
    if a =~= b {
    } else {
        let i = first_difference(a, b, 0);
        lemma_first_difference(a, b, 0);
        assert(differ_first_at(a, b, i));
        assert(differ_first_at(b, a, i));
    }
}

/// The least place at or after `from` where `a` and `b` differ, or their length.
pub open spec fn first_difference(a: Seq<u8>, b: Seq<u8>, from: int) -> int
    decreases a.len() - from,
{
    if from < 0 || from >= a.len() || a[from] != b[from] {
        from
    } else {
        first_difference(a, b, from + 1)
    }
}

proof fn lemma_first_difference(a: Seq<u8>, b: Seq<u8>, from: int)
    requires
        a.len() == b.len(),
        0 <= from <= a.len(),
    ensures
        from <= first_difference(a, b, from) <= a.len(),
        forall|j: int| from <= j < first_difference(a, b, from) ==> a[j] == b[j],
        first_difference(a, b, from) < a.len() ==> a[first_difference(a, b, from)]
            != b[first_difference(a, b, from)],
    decreases a.len() - from,
{
    if from < a.len() && a[from] == b[from] {
        lemma_first_difference(a, b, from + 1);
    }
}

/// The address whose bytes are `bytes`.
pub open spec fn address_of(bytes: Seq<u8>) -> Address {
    choose|address: Address| address@ == bytes
}

/// An array that holds the first `k` of `bytes`, and zeros after them.
pub open spec fn array_with(bytes: Seq<u8>, k: nat) -> [u8; 32]
    decreases k,
{
    if k == 0 {
        spec_array_fill_for_copy_type(0u8)
    } else {
        spec_array_update(array_with(bytes, (k - 1) as nat), k - 1, bytes[k - 1])
    }
}

proof fn lemma_array_with(bytes: Seq<u8>, k: nat)
    requires
        k <= 32,
        bytes.len() == 32,
    ensures
        array_with(bytes, k)@.len() == 32,
        forall|j: int| 0 <= j < k ==> array_with(bytes, k)@[j] == bytes[j],
    decreases k,
{
    broadcast use vstd::array::group_array_axioms;

    if k > 0 {
        lemma_array_with(bytes, (k - 1) as nat);
    }
}

/// Every string of 32 bytes is the bytes of an address: `address_of` finds it.
pub proof fn lemma_address_of(bytes: Seq<u8>)
    requires
        bytes.len() == 32,
    ensures
        address_of(bytes)@ == bytes,
{
    lemma_array_with(bytes, 32);
    let found = Address { bytes: array_with(bytes, 32) };
    assert(found@ =~= bytes);
}

} // verus!
