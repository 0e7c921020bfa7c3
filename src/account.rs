use vstd::prelude::*;

verus! {

/// A 32-byte account identifier.
#[derive(Clone, Copy, Debug, Eq, Hash)]
pub struct AccountId {
    pub bytes: [u8; 32],
}

/// A 32-byte reference to the code that a new pair is instantiated from.
#[derive(Clone, Copy, Debug, Eq, Hash)]
pub struct CodeHash {
    pub bytes: [u8; 32],
}

impl PartialEq for AccountId {
    fn eq(&self, o: &AccountId) -> (r: bool) {
        same_bytes(&self.bytes, &o.bytes)
    }
}

impl vstd::std_specs::cmp::PartialEqSpecImpl for AccountId {
    open spec fn obeys_eq_spec() -> bool {
        true
    }

    open spec fn eq_spec(&self, o: &AccountId) -> bool {
        self == o
    }
}

impl PartialEq for CodeHash {
    fn eq(&self, o: &CodeHash) -> (r: bool) {
        same_bytes(&self.bytes, &o.bytes)
    }
}

impl vstd::std_specs::cmp::PartialEqSpecImpl for CodeHash {
    open spec fn obeys_eq_spec() -> bool {
        true
    }

    open spec fn eq_spec(&self, o: &CodeHash) -> bool {
        self == o
    }
}

/// Whether two 32-byte arrays are equal, byte by byte.
fn same_bytes(a: &[u8; 32], b: &[u8; 32]) -> (r: bool)
    ensures
        r == (*a == *b),
{
    broadcast use vstd::array::group_array_axioms;
    let mut i: usize = 0;
    while i < 32
        invariant
            0 <= i <= 32,
            a@.len() == 32,
            b@.len() == 32,
            forall|j: int| 0 <= j < i ==> a@[j] == b@[j],
        decreases 32 - i,
    {
        if a[i] != b[i] {
            return false;
        }
        i = i + 1;
    }
    assert(*a =~= *b);
    true
}

/// `a` comes before `b` in the canonical order: the byte-wise lexicographic
/// order of their identifiers.
pub open spec fn account_lt(a: AccountId, b: AccountId) -> bool {
    exists|i: int|
        0 <= i < 32 && (forall|j: int| 0 <= j < i ==> a.bytes@[j] == b.bytes@[j]) && a.bytes@[i]
            < b.bytes@[i]
}

/// The null address, whose bytes are all zero.
pub open spec fn is_zero(a: AccountId) -> bool {
    forall|i: int| 0 <= i < 32 ==> a.bytes@[i] == 0
}

/// The null address.
pub open spec fn zero_account() -> AccountId {
    choose|a: AccountId| is_zero(a)
}

/// The two accounts in canonical order.
pub open spec fn sorted_pair(a: AccountId, b: AccountId) -> (AccountId, AccountId) {
    if account_lt(a, b) {
        (a, b)
    } else {
        (b, a)
    }
}

impl AccountId {
    /// The null address.
    pub fn zero() -> (r: AccountId)
        ensures
            is_zero(r),
            r == zero_account(),
    {
        let r = AccountId { bytes: [0u8; 32] };
        proof {
            assert(is_zero(r));
            lemma_zero_unique(r, zero_account());
        }
        r
    }

    pub fn from_bytes(bytes: [u8; 32]) -> (r: AccountId)
        ensures
            r.bytes == bytes,
    {
        AccountId { bytes }
    }

    /// Whether this is the null address.
    pub fn is_zero(&self) -> (r: bool)
        ensures
            r == is_zero(*self),
    {
        broadcast use vstd::array::group_array_axioms;
        let mut i: usize = 0;
        while i < 32
            invariant
                0 <= i <= 32,
                self.bytes@.len() == 32,
                forall|j: int| 0 <= j < i ==> self.bytes@[j] == 0,
            decreases 32 - i,
        {
            if self.bytes[i] != 0 {
                return false;
            }
            i = i + 1;
        }
        true
    }

    /// Whether `self` comes before `other` in the canonical order.
    pub fn lt(&self, other: &AccountId) -> (r: bool)
        ensures
            r == account_lt(*self, *other),
    {
        broadcast use vstd::array::group_array_axioms;
        let mut i: usize = 0;
        while i < 32
            invariant
                0 <= i <= 32,
                self.bytes@.len() == 32,
                other.bytes@.len() == 32,
                forall|j: int| 0 <= j < i ==> self.bytes@[j] == other.bytes@[j],
            decreases 32 - i,
        {
            let x = self.bytes[i];
            let y = other.bytes[i];
            if x != y {
                if x < y {
                    assert(0 <= i < 32 && (forall|j: int|
                        0 <= j < i ==> self.bytes@[j] == other.bytes@[j]) && self.bytes@[i as int]
                        < other.bytes@[i as int]);
                    return true;
                } else {
                    return false;
                }
            }
            i = i + 1;
        }
        false
    }
}

/// Of two distinct accounts exactly one comes first.
pub proof fn lemma_account_order_total(a: AccountId, b: AccountId)
    requires
        a != b,
    ensures
        account_lt(a, b) != account_lt(b, a),
{
    broadcast use vstd::array::group_array_axioms;

    lemma_first_difference(a, b, 0);
    if account_lt(a, b) && account_lt(b, a) {
        let i = choose|i: int|
            0 <= i < 32 && (forall|j: int| 0 <= j < i ==> a.bytes@[j] == b.bytes@[j])
                && a.bytes@[i] < b.bytes@[i];
        let k = choose|k: int|
            0 <= k < 32 && (forall|j: int| 0 <= j < k ==> b.bytes@[j] == a.bytes@[j])
                && b.bytes@[k] < a.bytes@[k];
        if i < k {
            assert(b.bytes@[i] == a.bytes@[i]);
        } else if k < i {
            assert(a.bytes@[k] == b.bytes@[k]);
        }
    }
}

proof fn lemma_first_difference(a: AccountId, b: AccountId, i: int)
    requires
        a != b,
        0 <= i <= 32,
        forall|j: int| 0 <= j < i ==> a.bytes@[j] == b.bytes@[j],
    ensures
        account_lt(a, b) || account_lt(b, a),
    decreases 32 - i,
{
    broadcast use vstd::array::group_array_axioms;

    if i == 32 {
        assert(a.bytes =~= b.bytes);
    } else if a.bytes@[i] == b.bytes@[i] {
        lemma_first_difference(a, b, i + 1);
    } else if a.bytes@[i] < b.bytes@[i] {
        assert(account_lt(a, b));
    } else {
        assert(forall|j: int| 0 <= j < i ==> b.bytes@[j] == a.bytes@[j]);
        assert(account_lt(b, a));
    }
}

/// There is one null address.
pub proof fn lemma_zero_unique(a: AccountId, b: AccountId)
    requires
        is_zero(a),
        is_zero(b),
    ensures
        a == b,
{
    broadcast use vstd::array::group_array_axioms;

    assert(a.bytes =~= b.bytes);
}

/// Canonical ordering does not depend on the order of the arguments.
pub proof fn lemma_sorted_pair_symmetric(a: AccountId, b: AccountId)
    requires
        a != b,
    ensures
        sorted_pair(a, b) == sorted_pair(b, a),
        account_lt(sorted_pair(a, b).0, sorted_pair(a, b).1),
{
    lemma_account_order_total(a, b);
}

} // verus!
