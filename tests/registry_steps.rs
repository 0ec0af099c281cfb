use eth_labs::address::Address;
use eth_labs::client::{ContractHandle, EthereumClientError};
use eth_labs::registry::{ContractRegistry, RegistryError, ResolvePlan, ResolveStep};

fn handle(name: &str, b: u8) -> ContractHandle {
    ContractHandle { name: name.to_string(), address: Address { bytes: [b; 20] } }
}

fn ready_address(step: ResolveStep) -> [u8; 20] {
    match step {
        ResolveStep::Ready(h) => h.address.bytes,
        _ => panic!("expected a resolved handle"),
    }
}

#[test]
fn concurrent_callers_resolve_once_and_share_handle() {
    let mut reg = ContractRegistry::new(vec![]);
    assert!(matches!(reg.begin_resolve("Ballot"), ResolveStep::Resolve(ResolvePlan::Deploy)));
    assert!(matches!(reg.begin_resolve("Ballot"), ResolveStep::Wait));
    assert!(matches!(reg.begin_resolve("Ballot"), ResolveStep::Wait));
    let done = reg.finish_resolve("Ballot", Ok(handle("Ballot", 9))).unwrap();
    assert_eq!(done.address.bytes, [9u8; 20]);
    assert_eq!(ready_address(reg.begin_resolve("Ballot")), [9u8; 20]);
    assert_eq!(ready_address(reg.begin_resolve("Ballot")), [9u8; 20]);
}

#[test]
fn other_names_are_not_blocked() {
    let mut reg = ContractRegistry::new(vec![]);
    assert!(matches!(reg.begin_resolve("Ballot"), ResolveStep::Resolve(_)));
    assert!(matches!(reg.begin_resolve("SmartMoney"), ResolveStep::Resolve(ResolvePlan::Deploy)));
    reg.finish_resolve("SmartMoney", Ok(handle("SmartMoney", 2))).unwrap();
    assert_eq!(ready_address(reg.begin_resolve("SmartMoney")), [2u8; 20]);
    assert!(matches!(reg.begin_resolve("Ballot"), ResolveStep::Wait));
}

#[test]
fn configured_address_attaches() {
    let addr = "0x5FbDB2315678afecb367f032d93F642f64180aa3".to_string();
    let mut reg = ContractRegistry::new(vec![("SharedWallet".to_string(), addr.clone())]);
    match reg.begin_resolve("SharedWallet") {
        ResolveStep::Resolve(ResolvePlan::Attach(a)) => assert_eq!(a, addr),
        _ => panic!("expected an attach plan"),
    }
    assert!(matches!(reg.begin_resolve("SharedWallet"), ResolveStep::Wait));
    assert!(matches!(reg.begin_resolve("Ballot"), ResolveStep::Resolve(ResolvePlan::Deploy)));
}

#[test]
fn later_override_for_same_name_counts() {
    let mut reg = ContractRegistry::new(vec![
        ("Ballot".to_string(), "0x01".to_string()),
        ("Ballot".to_string(), "0x02".to_string()),
    ]);
    match reg.begin_resolve("Ballot") {
        ResolveStep::Resolve(ResolvePlan::Attach(a)) => assert_eq!(a, "0x02"),
        _ => panic!("expected an attach plan"),
    }
}

#[test]
fn failed_resolution_is_retried() {
    let mut reg = ContractRegistry::new(vec![]);
    assert!(matches!(reg.begin_resolve("Ballot"), ResolveStep::Resolve(_)));
    assert!(matches!(reg.begin_resolve("Ballot"), ResolveStep::Wait));
    let r = reg.finish_resolve("Ballot", Err(EthereumClientError::ContractDeploymentError("reverted".into())));
    assert!(matches!(r, Err(EthereumClientError::ContractDeploymentError(_))));
    assert!(matches!(reg.begin_resolve("Ballot"), ResolveStep::Resolve(ResolvePlan::Deploy)));
    reg.finish_resolve("Ballot", Ok(handle("Ballot", 4))).unwrap();
    assert_eq!(ready_address(reg.begin_resolve("Ballot")), [4u8; 20]);
}

#[test]
fn lookup_before_and_after_resolve() {
    let mut reg = ContractRegistry::new(vec![]);
    match reg.lookup("Ballot") {
        Err(e @ RegistryError::NotDeployed(_)) => assert_eq!(e.message(), "contract Ballot not deployed"),
        Ok(_) => panic!("expected NotDeployed"),
    }
    assert!(matches!(reg.begin_resolve("Ballot"), ResolveStep::Resolve(_)));
    assert!(reg.lookup("Ballot").is_err());
    reg.finish_resolve("Ballot", Ok(handle("Ballot", 5))).unwrap();
    assert_eq!(reg.lookup("Ballot").unwrap().address.bytes, [5u8; 20]);
}

#[test]
fn report_for_unclaimed_name_changes_nothing() {
    let mut reg = ContractRegistry::new(vec![]);
    reg.finish_resolve("Ballot", Ok(handle("Ballot", 1))).unwrap();
    assert!(reg.lookup("Ballot").is_err());
    assert!(matches!(reg.begin_resolve("Ballot"), ResolveStep::Resolve(_)));
    reg.finish_resolve("Ballot", Ok(handle("Ballot", 3))).unwrap();
    reg.finish_resolve("Ballot", Ok(handle("Ballot", 8))).unwrap();
    assert_eq!(reg.lookup("Ballot").unwrap().address.bytes, [3u8; 20]);
}
