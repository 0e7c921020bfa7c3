use vstd::prelude::*;

use crate::account::{
    account_lt, is_zero, lemma_sorted_pair_symmetric, sorted_pair,
    AccountId, CodeHash,
};
use crate::pair::PairError;

verus! {

/// Failures of the pair registry.
#[derive(Clone, Copy, Debug, PartialEq, Eq, Structural)]
pub enum FactoryError {
    PairError(PairError),
    CallerIsnotFeeSetter,
    ZeroAddress,
    IdenticalAddress,
    PairExists,
    PairInstantiationFailed,
}

impl From<PairError> for FactoryError {
    fn from(value: PairError) -> (r: Self) {
        FactoryError::PairError(value)
    }
}

impl vstd::std_specs::convert::FromSpecImpl<PairError> for FactoryError {
    open spec fn obeys_from_spec() -> bool {
        true
    }

    open spec fn from_spec(v: PairError) -> FactoryError {
        FactoryError::PairError(v)
    }
}

/// A pair was registered.
#[derive(Clone, Copy, Debug, PartialEq, Eq)]
pub struct PairCreated {
    pub token_0: AccountId,
    pub token_1: AccountId,
    pub pair: AccountId,
    pub pair_len: u64,
}

/// What the instantiation of a new pair is asked for: the code to run, the
/// salt that fixes its address, and the two tokens in canonical order.
#[derive(Debug, PartialEq, Eq)]
pub struct PairRequest {
    pub token_0: AccountId,
    pub token_1: AccountId,
    pub code_hash: CodeHash,
    pub salt: Vec<u8>,
}

/// The service that deploys a new pair and reports its address, or `None`
/// where the deployment failed.
pub trait PairDeployer {
    fn instantiate_pair(&mut self, request: &PairRequest) -> Option<AccountId>;
}

/// The salt of a pair: the first four bytes of the encoding of its tokens,
/// which are those of `token_0`.
pub open spec fn salt_of(token_0: AccountId) -> Seq<u8> {
    token_0.bytes@.subrange(0, 4)
}

/// The registry of pairs.
pub struct FactoryContract {
    pub fee_to: AccountId,
    pub fee_to_setter: AccountId,
    pub pair_contract_code_hash: CodeHash,
    /// `(token_0, token_1, pair)` for each pair, in order of creation.
    pub pairs: Vec<(AccountId, AccountId, AccountId)>,
    pub events: Vec<PairCreated>,
}

/// The pair registered for `token_0` and `token_1` in that order, if any.
pub open spec fn lookup(
    s: Seq<(AccountId, AccountId, AccountId)>,
    token_0: AccountId,
    token_1: AccountId,
) -> Option<AccountId> {
    if exists|i: int| 0 <= i < s.len() && s[i].0 == token_0 && s[i].1 == token_1 {
        Some(s[choose|i: int| 0 <= i < s.len() && s[i].0 == token_0 && s[i].1 == token_1].2)
    } else {
        None
    }
}

/// No two entries share their tokens.
pub open spec fn unique_keys(s: Seq<(AccountId, AccountId, AccountId)>) -> bool {
    forall|j: int, k: int| 0 <= j < k < s.len() ==> (s[j].0, s[j].1) != (s[k].0, s[k].1)
}

proof fn lemma_lookup_at(s: Seq<(AccountId, AccountId, AccountId)>, i: int)
    requires
        0 <= i < s.len(),
        unique_keys(s),
    ensures
        lookup(s, s[i].0, s[i].1) == Some(s[i].2),
{
}

impl FactoryContract {
    /// Every pair is keyed by its tokens in canonical order, and no two pairs
    /// share their tokens.
    pub open spec fn wf(self) -> bool {
        &&& forall|i: int| 0 <= i < self.pairs@.len() ==> account_lt(self.pairs@[i].0, self.pairs@[i].1)
        &&& unique_keys(self.pairs@)
    }

    /// The pair of `token_a` and `token_b`, in either order.
    pub open spec fn pair_for(self, token_a: AccountId, token_b: AccountId) -> Option<AccountId> {
        lookup(self.pairs@, sorted_pair(token_a, token_b).0, sorted_pair(token_a, token_b).1)
    }

    /// The addresses of all pairs, in order of creation.
    pub open spec fn all_pairs(self) -> Seq<AccountId> {
        self.pairs@.map_values(|e: (AccountId, AccountId, AccountId)| e.2)
    }

    /// Why a pair of `token_a` and `token_b` cannot be created, if it cannot.
    pub open spec fn create_error(
        self,
        token_a: AccountId,
        token_b: AccountId,
    ) -> Option<FactoryError> {
        if token_a == token_b {
            Some(FactoryError::IdenticalAddress)
        } else if is_zero(token_a) || is_zero(token_b) {
            Some(FactoryError::ZeroAddress)
        } else if self.pair_for(token_a, token_b) is Some {
            Some(FactoryError::PairExists)
        } else {
            None
        }
    }

    /// `r` is the instantiation request for `token_a` and `token_b`.
    pub open spec fn is_request_for(
        self,
        r: PairRequest,
        token_a: AccountId,
        token_b: AccountId,
    ) -> bool {
        &&& r.token_0 == sorted_pair(token_a, token_b).0
        &&& r.token_1 == sorted_pair(token_a, token_b).1
        &&& r.code_hash == self.pair_contract_code_hash
        &&& r.salt@ == salt_of(r.token_0)
    }

    /// `after` is `before` with `pair` registered for `token_0` and `token_1`.
    pub open spec fn registered(
        before: FactoryContract,
        after: FactoryContract,
        token_0: AccountId,
        token_1: AccountId,
        pair: AccountId,
    ) -> bool {
        &&& after.pairs@ == before.pairs@.push((token_0, token_1, pair))
        &&& after.events@ == before.events@.push(
            PairCreated { token_0, token_1, pair, pair_len: after.pairs@.len() as u64 },
        )
        &&& after.fee_to == before.fee_to
        &&& after.fee_to_setter == before.fee_to_setter
        &&& after.pair_contract_code_hash == before.pair_contract_code_hash
    }

    /// A registry with no pairs and the protocol fee off.
    pub fn new(fee_to_setter: AccountId, pair_code_hash: CodeHash) -> (r: FactoryContract)
        ensures
            r.wf(),
            r.fee_to_setter == fee_to_setter,
            r.pair_contract_code_hash == pair_code_hash,
            is_zero(r.fee_to),
            r.pairs@.len() == 0,
            r.events@.len() == 0,
    {
        FactoryContract {
            fee_to: AccountId::zero(),
            fee_to_setter,
            pair_contract_code_hash: pair_code_hash,
            pairs: Vec::new(),
            events: Vec::new(),
        }
    }

    pub fn fee_to(&self) -> (r: AccountId)
        ensures
            r == self.fee_to,
    {
        self.fee_to
    }

    pub fn fee_to_setter(&self) -> (r: AccountId)
        ensures
            r == self.fee_to_setter,
    {
        self.fee_to_setter
    }

    /// The number of pairs.
    pub fn all_pair_length(&self) -> (r: u64)
        ensures
            r == self.pairs@.len(),
    {
        self.pairs.len() as u64
    }

    /// The address of the pair created `index`-th, counting from zero.
    pub fn all_pairs_at(&self, index: u64) -> (r: Option<AccountId>)
        ensures
            r == if index < self.pairs@.len() {
                Some(self.all_pairs()[index as int])
            } else {
                None::<AccountId>
            },
    {
        if index < self.pairs.len() as u64 {
            Some(self.pairs[index as usize].2)
        } else {
            None
        }
    }

    /// Sets the recipient of the protocol fee; only the fee setter may.
    pub fn set_fee_to(
        &mut self,
        caller: &AccountId,
        fee_to: &AccountId,
    ) -> (r: Result<(), FactoryError>)
        ensures
            r is Ok <==> *caller == old(self).fee_to_setter,
            r is Err ==> r == Err::<(), FactoryError>(FactoryError::CallerIsnotFeeSetter) && *final(self) == *old(self),
            r is Ok ==> *final(self) == (FactoryContract { fee_to: *fee_to, ..*old(self) }),
    {
        if *caller != self.fee_to_setter {
            return Err(FactoryError::CallerIsnotFeeSetter);
        }
        self.fee_to = *fee_to;
        Ok(())
    }

    /// Hands the right to set the fee to another account; only the fee setter may.
    pub fn set_fee_to_setter(
        &mut self,
        caller: &AccountId,
        fee_to_setter: &AccountId,
    ) -> (r: Result<(), FactoryError>)
        ensures
            r is Ok <==> *caller == old(self).fee_to_setter,
            r is Err ==> r == Err::<(), FactoryError>(FactoryError::CallerIsnotFeeSetter) && *final(self) == *old(self),
            r is Ok ==> *final(self) == (FactoryContract { fee_to_setter: *fee_to_setter, ..*old(self) }),
    {
        if *caller != self.fee_to_setter {
            return Err(FactoryError::CallerIsnotFeeSetter);
        }
        self.fee_to_setter = *fee_to_setter;
        Ok(())
    }

    fn find(&self, token_0: &AccountId, token_1: &AccountId) -> (r: Option<AccountId>)
        requires
            self.wf(),
        ensures
            r == lookup(self.pairs@, *token_0, *token_1),
    {
        let mut i: usize = 0;
        while i < self.pairs.len()
            invariant
                self.wf(),
                i <= self.pairs@.len(),
                forall|j: int| 0 <= j < i ==> !(self.pairs@[j].0 == *token_0 && self.pairs@[j].1 == *token_1),
            decreases self.pairs@.len() - i,
        {
            if self.pairs[i].0 == *token_0 && self.pairs[i].1 == *token_1 {
                proof {
                    lemma_lookup_at(self.pairs@, i as int);
                }
                return Some(self.pairs[i].2);
            }
            i = i + 1;
        }
        None
    }

    /// The pair of `token_a` and `token_b`, in either order, if there is one.
    pub fn get_pair(&self, token_a: &AccountId, token_b: &AccountId) -> (r: Option<AccountId>)
        requires
            self.wf(),
        ensures
            r == self.pair_for(*token_a, *token_b),
    {
        if token_a.lt(token_b) {
            self.find(token_a, token_b)
        } else {
            self.find(token_b, token_a)
        }
    }

    /// Checks that a pair of `token_a` and `token_b` can be created, and
    /// gives the request for its instantiation.
    pub fn pair_request(
        &self,
        token_a: &AccountId,
        token_b: &AccountId,
    ) -> (r: Result<PairRequest, FactoryError>)
        requires
            self.wf(),
        ensures
            match self.create_error(*token_a, *token_b) {
                Some(e) => r == Err::<PairRequest, FactoryError>(e),
                None => r is Ok && self.is_request_for(r->Ok_0, *token_a, *token_b),
            },
    {
        if *token_a == *token_b {
            return Err(FactoryError::IdenticalAddress);
        }
        if token_a.is_zero() || token_b.is_zero() {
            return Err(FactoryError::ZeroAddress);
        }
        if self.get_pair(token_a, token_b).is_some() {
            return Err(FactoryError::PairExists);
        }
        let (token_0, token_1) = if token_a.lt(token_b) {
            (*token_a, *token_b)
        } else {
            (*token_b, *token_a)
        };
        let mut salt: Vec<u8> = Vec::new();
        salt.push(token_0.bytes[0]);
        salt.push(token_0.bytes[1]);
        salt.push(token_0.bytes[2]);
        salt.push(token_0.bytes[3]);
        assert(salt@ =~= salt_of(token_0));
        Ok(PairRequest { token_0, token_1, code_hash: self.pair_contract_code_hash, salt })
    }

    /// Registers the outcome of instantiating the pair of `token_a` and
    /// `token_b`: the new pair's address, or `None` where the instantiation
    /// failed.
    pub fn register_pair(
        &mut self,
        token_a: &AccountId,
        token_b: &AccountId,
        deployed: Option<AccountId>,
    ) -> (r: Result<AccountId, FactoryError>)
        requires
            old(self).wf(),
        ensures
            final(self).wf(),
            match old(self).create_error(*token_a, *token_b) {
                Some(e) => r == Err::<AccountId, FactoryError>(e),
                None => r == match deployed {
                    Some(p) => Ok::<AccountId, FactoryError>(p),
                    None => Err(FactoryError::PairInstantiationFailed),
                },
            },
            r is Err ==> *final(self) == *old(self),
            r is Ok ==> Self::registered(
                *old(self),
                *final(self),
                sorted_pair(*token_a, *token_b).0,
                sorted_pair(*token_a, *token_b).1,
                r->Ok_0,
            ),
    {
        if *token_a == *token_b {
            return Err(FactoryError::IdenticalAddress);
        }
        if token_a.is_zero() || token_b.is_zero() {
            return Err(FactoryError::ZeroAddress);
        }
        if self.get_pair(token_a, token_b).is_some() {
            return Err(FactoryError::PairExists);
        }
        let pair = match deployed {
            Some(p) => p,
            None => {
                return Err(FactoryError::PairInstantiationFailed);
            },
        };
        let (token_0, token_1) = if token_a.lt(token_b) {
            (*token_a, *token_b)
        } else {
            (*token_b, *token_a)
        };
        proof {
            lemma_sorted_pair_symmetric(*token_a, *token_b);
            let s = self.pairs@;
            assert forall|i: int| 0 <= i < s.len() implies (s[i].0, s[i].1) != (token_0, token_1) by {
                if (s[i].0, s[i].1) == (token_0, token_1) {
                    assert(lookup(s, token_0, token_1) is Some);
                }
            }
        }
        self.pairs.push((token_0, token_1, pair));
        let pair_len = self.pairs.len() as u64;
        self.events.push(PairCreated { token_0, token_1, pair, pair_len });
        Ok(pair)
    }

    /// Creates the pair of `token_a` and `token_b`: checks the request, has
    /// `deployer` instantiate it, and registers the address it reports.
    /// Nothing changes where any step fails.
    pub fn create_pair<D: PairDeployer>(
        &mut self,
        token_a: &AccountId,
        token_b: &AccountId,
        deployer: &mut D,
    ) -> (r: Result<AccountId, FactoryError>)
        requires
            old(self).wf(),
        ensures
            final(self).wf(),
            match old(self).create_error(*token_a, *token_b) {
                Some(e) => r == Err::<AccountId, FactoryError>(e),
                None => r is Ok || r == Err::<AccountId, FactoryError>(FactoryError::PairInstantiationFailed),
            },
            r is Err ==> *final(self) == *old(self),
            r is Ok ==> Self::registered(
                *old(self),
                *final(self),
                sorted_pair(*token_a, *token_b).0,
                sorted_pair(*token_a, *token_b).1,
                r->Ok_0,
            ),
    {
        let request = match self.pair_request(token_a, token_b) {
            Ok(q) => q,
            Err(e) => {
                return Err(e);
            },
        };
        let deployed = deployer.instantiate_pair(&request);
        self.register_pair(token_a, token_b, deployed)
    }
}

/// The operations of a pair registry, stated over its abstract state.
pub trait Factory: Sized {
    /// The registry's invariant.
    spec fn inv(&self) -> bool;

    /// The recipient of the protocol fee; the null address when it is off.
    spec fn fee_recipient(&self) -> AccountId;

    /// The account allowed to change the fee settings.
    spec fn fee_setter(&self) -> AccountId;

    /// The number of pairs created.
    spec fn pair_count(&self) -> nat;

    /// The pair of two tokens, in either order.
    spec fn pair_of(&self, token_a: AccountId, token_b: AccountId) -> Option<AccountId>;

    /// Why a pair of two tokens cannot be created, if it cannot.
    spec fn creation_error(&self, token_a: AccountId, token_b: AccountId) -> Option<FactoryError>;

    fn fee_to(&self) -> (r: AccountId)
        ensures
            r == self.fee_recipient(),
    ;

    fn fee_to_setter(&self) -> (r: AccountId)
        ensures
            r == self.fee_setter(),
    ;

    fn all_pair_length(&self) -> (r: u64)
        ensures
            r == self.pair_count(),
    ;

    fn set_fee_to(
        &mut self,
        caller: &AccountId,
        fee_to: &AccountId,
    ) -> (r: Result<(), FactoryError>)
        requires
            old(self).inv(),
        ensures
            final(self).inv(),
            r is Ok <==> *caller == old(self).fee_setter(),
            r is Err ==> r == Err::<(), FactoryError>(FactoryError::CallerIsnotFeeSetter),
            r is Ok ==> final(self).fee_recipient() == *fee_to,
            final(self).fee_setter() == old(self).fee_setter(),
    ;

    fn set_fee_to_setter(
        &mut self,
        caller: &AccountId,
        fee_to_setter: &AccountId,
    ) -> (r: Result<(), FactoryError>)
        requires
            old(self).inv(),
        ensures
            final(self).inv(),
            r is Ok <==> *caller == old(self).fee_setter(),
            r is Err ==> r == Err::<(), FactoryError>(FactoryError::CallerIsnotFeeSetter),
            r is Ok ==> final(self).fee_setter() == *fee_to_setter,
            r is Err ==> final(self).fee_setter() == old(self).fee_setter(),
            final(self).fee_recipient() == old(self).fee_recipient(),
    ;

    fn create_pair<D: PairDeployer>(
        &mut self,
        token_a: &AccountId,
        token_b: &AccountId,
        deployer: &mut D,
    ) -> (r: Result<AccountId, FactoryError>)
        requires
            old(self).inv(),
        ensures
            final(self).inv(),
            match old(self).creation_error(*token_a, *token_b) {
                Some(e) => r == Err::<AccountId, FactoryError>(e),
                None => r is Ok || r == Err::<AccountId, FactoryError>(FactoryError::PairInstantiationFailed),
            },
            r is Err ==> final(self).pair_count() == old(self).pair_count(),
            r is Ok ==> final(self).pair_count() == old(self).pair_count() + 1
                && final(self).pair_of(*token_a, *token_b) == Some(r->Ok_0)
                && final(self).pair_of(*token_b, *token_a) == Some(r->Ok_0),
    ;

    fn get_pair(&self, token_a: &AccountId, token_b: &AccountId) -> (r: Option<AccountId>)
        requires
            self.inv(),
        ensures
            r == self.pair_of(*token_a, *token_b),
    ;
}

impl Factory for FactoryContract {
    open spec fn inv(&self) -> bool {
        self.wf()
    }

    open spec fn fee_recipient(&self) -> AccountId {
        self.fee_to
    }

    open spec fn fee_setter(&self) -> AccountId {
        self.fee_to_setter
    }

    open spec fn pair_count(&self) -> nat {
        self.pairs@.len()
    }

    open spec fn pair_of(&self, token_a: AccountId, token_b: AccountId) -> Option<AccountId> {
        self.pair_for(token_a, token_b)
    }

    open spec fn creation_error(
        &self,
        token_a: AccountId,
        token_b: AccountId,
    ) -> Option<FactoryError> {
        self.create_error(token_a, token_b)
    }

    fn fee_to(&self) -> (r: AccountId) {
        FactoryContract::fee_to(self)
    }

    fn fee_to_setter(&self) -> (r: AccountId) {
        FactoryContract::fee_to_setter(self)
    }

    fn all_pair_length(&self) -> (r: u64) {
        FactoryContract::all_pair_length(self)
    }

    fn set_fee_to(
        &mut self,
        caller: &AccountId,
        fee_to: &AccountId,
    ) -> (r: Result<(), FactoryError>) {
        FactoryContract::set_fee_to(self, caller, fee_to)
    }

    fn set_fee_to_setter(
        &mut self,
        caller: &AccountId,
        fee_to_setter: &AccountId,
    ) -> (r: Result<(), FactoryError>) {
        FactoryContract::set_fee_to_setter(self, caller, fee_to_setter)
    }

    fn create_pair<D: PairDeployer>(
        &mut self,
        token_a: &AccountId,
        token_b: &AccountId,
        deployer: &mut D,
    ) -> (r: Result<AccountId, FactoryError>) {
        let r = FactoryContract::create_pair(self, token_a, token_b, deployer);
        proof {
            if r is Ok {
                crate::laws::lemma_factory_uniqueness(*old(self), *self, *token_a, *token_b, r->Ok_0);
            }
        }
        r
    }

    fn get_pair(&self, token_a: &AccountId, token_b: &AccountId) -> (r: Option<AccountId>) {
        FactoryContract::get_pair(self, token_a, token_b)
    }
}

} // verus!
