use uniswap_core::account::{AccountId, CodeHash};
use uniswap_core::factory::{Factory, FactoryContract, FactoryError, PairDeployer, PairRequest};
use uniswap_core::pair::PairError;

fn acct(b: u8) -> AccountId {
    let mut bytes = [0u8; 32];
    bytes[0] = b;
    bytes[5] = 7;
    AccountId::from_bytes(bytes)
}

/// Derives an address from the code hash and the salt, as a chain would.
struct Deployer {
    fail: bool,
    calls: usize,
}

impl PairDeployer for Deployer {
    fn instantiate_pair(&mut self, request: &PairRequest) -> Option<AccountId> {
        self.calls += 1;
        if self.fail {
            return None;
        }
        let mut bytes = request.code_hash.bytes;
        for (i, b) in request.salt.iter().enumerate() {
            bytes[i] ^= *b;
        }
        bytes[31] ^= 0x55;
        Some(AccountId::from_bytes(bytes))
    }
}

fn code() -> CodeHash {
    CodeHash { bytes: [3u8; 32] }
}

fn factory() -> FactoryContract {
    FactoryContract::new(acct(100), code())
}

#[test]
fn zero_and_identical_addresses_are_refused() {
    let mut f = factory();
    let mut d = Deployer { fail: false, calls: 0 };
    assert_eq!(f.create_pair(&AccountId::zero(), &acct(2), &mut d), Err(FactoryError::ZeroAddress));
    assert_eq!(f.create_pair(&acct(2), &AccountId::zero(), &mut d), Err(FactoryError::ZeroAddress));
    assert_eq!(f.create_pair(&acct(1), &acct(1), &mut d), Err(FactoryError::IdenticalAddress));
    assert_eq!(d.calls, 0);
    assert_eq!(f.all_pair_length(), 0);
}

#[test]
fn second_creation_in_either_order_fails() {
    let mut f = factory();
    let mut d = Deployer { fail: false, calls: 0 };
    let p = f.create_pair(&acct(1), &acct(2), &mut d).unwrap();
    assert_eq!(f.create_pair(&acct(2), &acct(1), &mut d), Err(FactoryError::PairExists));
    assert_eq!(f.create_pair(&acct(1), &acct(2), &mut d), Err(FactoryError::PairExists));
    assert_eq!(f.get_pair(&acct(1), &acct(2)), Some(p));
    assert_eq!(f.get_pair(&acct(2), &acct(1)), Some(p));
    assert_eq!(f.all_pair_length(), 1);
    assert_eq!(d.calls, 1);
}

#[test]
fn same_tokens_and_code_give_same_address() {
    let mut f = factory();
    let mut g = FactoryContract::new(acct(101), code());
    let mut d = Deployer { fail: false, calls: 0 };
    let p = f.create_pair(&acct(4), &acct(3), &mut d).unwrap();
    let q = g.create_pair(&acct(3), &acct(4), &mut d).unwrap();
    assert_eq!(p, q);
    assert_eq!(f.pair_request(&acct(5), &acct(6)), g.pair_request(&acct(6), &acct(5)));
}

#[test]
fn request_is_canonical_with_four_byte_salt() {
    let f = factory();
    let r = f.pair_request(&acct(9), &acct(2)).unwrap();
    assert_eq!(r.token_0, acct(2));
    assert_eq!(r.token_1, acct(9));
    assert_eq!(r.salt, vec![2u8, 0, 0, 0]);
    assert_eq!(r.code_hash, code());
}

#[test]
fn failed_instantiation_changes_nothing() {
    let mut f = factory();
    let mut d = Deployer { fail: true, calls: 0 };
    assert_eq!(
        f.create_pair(&acct(1), &acct(2), &mut d),
        Err(FactoryError::PairInstantiationFailed)
    );
    assert_eq!(f.all_pair_length(), 0);
    assert_eq!(f.get_pair(&acct(1), &acct(2)), None);
    assert!(f.events.is_empty());
}

#[test]
fn registry_enumerates_in_creation_order() {
    let mut f = factory();
    let a = f.register_pair(&acct(1), &acct(2), Some(acct(50))).unwrap();
    let b = f.register_pair(&acct(3), &acct(1), Some(acct(51))).unwrap();
    assert_eq!(f.all_pair_length(), 2);
    assert_eq!(f.all_pairs_at(0), Some(a));
    assert_eq!(f.all_pairs_at(1), Some(b));
    assert_eq!(f.all_pairs_at(2), None);
    assert_eq!(f.events.len(), 2);
    assert_eq!(f.events[1].pair_len, 2);
    assert_eq!(f.events[1].token_0, acct(1));
    assert_eq!(f.events[1].token_1, acct(3));
}

#[test]
fn only_fee_setter_sets_fee() {
    let mut f = factory();
    assert!(f.fee_to().is_zero());
    assert_eq!(f.set_fee_to(&acct(7), &acct(8)), Err(FactoryError::CallerIsnotFeeSetter));
    assert_eq!(f.set_fee_to(&acct(100), &acct(8)), Ok(()));
    assert_eq!(f.fee_to(), acct(8));
    assert_eq!(
        f.set_fee_to_setter(&acct(7), &acct(7)),
        Err(FactoryError::CallerIsnotFeeSetter)
    );
    assert_eq!(f.set_fee_to_setter(&acct(100), &acct(7)), Ok(()));
    assert_eq!(f.fee_to_setter(), acct(7));
    assert_eq!(f.set_fee_to(&acct(100), &acct(9)), Err(FactoryError::CallerIsnotFeeSetter));
}

#[test]
fn pair_error_converts() {
    assert_eq!(FactoryError::from(PairError::K), FactoryError::PairError(PairError::K));
}

fn create_through_interface<F: Factory>(
    f: &mut F,
    a: &AccountId,
    b: &AccountId,
    d: &mut Deployer,
) -> Result<AccountId, FactoryError> {
    f.create_pair(a, b, d)
}

#[test]
fn registry_interface_delegates() {
    let mut f = factory();
    let mut d = Deployer { fail: false, calls: 0 };
    let p = create_through_interface(&mut f, &acct(1), &acct(2), &mut d).unwrap();
    assert_eq!(Factory::get_pair(&f, &acct(2), &acct(1)), Some(p));
    assert_eq!(Factory::all_pair_length(&f), 1);
    assert_eq!(
        create_through_interface(&mut f, &acct(2), &acct(1), &mut d),
        Err(FactoryError::PairExists)
    );
    assert!(Factory::fee_to(&f).is_zero());
    assert_eq!(Factory::fee_to_setter(&f), acct(100));
}
