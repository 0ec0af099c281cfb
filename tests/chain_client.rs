use std::collections::BTreeMap;

use eth_labs::address::Address;
use eth_labs::client::{ContractHandle, DeployOutcome, EthereumClient, EthereumClientError};
use ethers_solc::artifacts::{Contract, Error};
use ethers_solc::CompilerOutput;

fn empty_contract() -> Contract {
    Contract {
        abi: None,
        metadata: None,
        userdoc: Default::default(),
        devdoc: Default::default(),
        ir: None,
        storage_layout: Default::default(),
        evm: None,
        ewasm: None,
        ir_optimized: None,
    }
}

fn output_with(names: &[&str]) -> CompilerOutput {
    let mut file = BTreeMap::new();
    for n in names {
        file.insert(n.to_string(), empty_contract());
    }
    let mut out = CompilerOutput::default();
    out.contracts.insert("Labs.sol".to_string(), file);
    out
}

fn diagnostic(severity: &str, message: &str) -> Error {
    let json = format!(
        "{{\"type\":\"TypeError\",\"component\":\"general\",\"severity\":\"{}\",\"message\":\"{}\",\"formattedMessage\":null}}",
        severity, message
    );
    serde_json::from_str(&json).unwrap()
}

const ADDR: &str = "0x5FbDB2315678afecb367f032d93F642f64180aa3";

#[test]
fn attaches_to_configured_address() {
    let client = EthereumClient::new(output_with(&["Ballot", "SmartMoney"])).unwrap();
    let h = client.contract_from_address("Ballot", ADDR).unwrap();
    assert_eq!(h.name, "Ballot");
    assert_eq!(h.address_hex(), "0x5fbdb2315678afecb367f032d93f642f64180aa3");
}

#[test]
fn attach_rejects_malformed_address() {
    let client = EthereumClient::new(output_with(&["Ballot"])).unwrap();
    match client.contract_from_address("Ballot", "0x12") {
        Err(EthereumClientError::AddressParseError(t)) => assert_eq!(t, "0x12"),
        other => panic!("unexpected {:?}", other),
    }
}

#[test]
fn attach_rejects_unknown_contract() {
    let client = EthereumClient::new(output_with(&["Ballot"])).unwrap();
    match client.contract_from_address("Missing", ADDR) {
        Err(EthereumClientError::ContractNotFound(n)) => assert_eq!(n, "Missing"),
        other => panic!("unexpected {:?}", other),
    }
}

#[test]
fn address_is_checked_before_artifact() {
    let client = EthereumClient::new(output_with(&[])).unwrap();
    assert!(matches!(
        client.contract_from_address("Missing", "nonsense"),
        Err(EthereumClientError::AddressParseError(_))
    ));
}

#[test]
fn deploy_artifact_lookup() {
    let client = EthereumClient::new(output_with(&["SharedWallet"])).unwrap();
    assert!(client.has_artifact("SharedWallet"));
    assert!(!client.has_artifact("Ballot"));
    assert!(client.deploy_artifact("SharedWallet").is_ok());
    match client.deploy_artifact("Ballot") {
        Err(EthereumClientError::ContractNotFound(n)) => assert_eq!(n, "Ballot"),
        _ => panic!("expected ContractNotFound"),
    }
    let h = ContractHandle { name: "Ballot".to_string(), address: Address { bytes: [1u8; 20] } };
    assert!(client.abi_of(&h).is_err());
    let w = ContractHandle { name: "SharedWallet".to_string(), address: Address { bytes: [1u8; 20] } };
    let (abi, _) = client.deploy_artifact("SharedWallet").unwrap();
    assert_eq!(client.abi_of(&w).unwrap(), abi);
}

#[test]
fn compiler_errors_are_refused_with_all_messages() {
    let mut out = output_with(&["Ballot"]);
    out.errors.push(diagnostic("warning", "unused variable"));
    out.errors.push(diagnostic("error", "undeclared identifier"));
    match EthereumClient::new(out) {
        Err(EthereumClientError::ContractCompilationInternalError(m)) => {
            assert_eq!(m, "unused variable\nundeclared identifier")
        }
        _ => panic!("expected a compilation error"),
    }
}

#[test]
fn compiler_warnings_alone_are_accepted() {
    let mut out = output_with(&["Ballot"]);
    out.errors.push(diagnostic("warning", "unused variable"));
    let client = EthereumClient::new(out).unwrap();
    assert!(client.has_artifact("Ballot"));
}

#[test]
fn deployment_outcomes() {
    let a = Address { bytes: [7u8; 20] };
    let h = EthereumClient::deployed_contract("SmartMoney", DeployOutcome::Deployed(a)).unwrap();
    assert_eq!(h.name, "SmartMoney");
    assert_eq!(h.address, a);
    match EthereumClient::deployed_contract("SmartMoney", DeployOutcome::NotSubmitted("bad args".into())) {
        Err(EthereumClientError::DeployerCreationError(m)) => assert_eq!(m, "bad args"),
        _ => panic!("expected DeployerCreationError"),
    }
    match EthereumClient::deployed_contract("SmartMoney", DeployOutcome::Failed("out of gas".into())) {
        Err(e @ EthereumClientError::ContractDeploymentError(_)) => {
            assert_eq!(e.message(), "could not deploy contract: out of gas")
        }
        _ => panic!("expected ContractDeploymentError"),
    }
}

#[test]
fn error_messages() {
    assert_eq!(EthereumClientError::AppError("env var X must be set".into()).message(), "failed to init client: env var X must be set");
    assert_eq!(EthereumClientError::ClientInitError("could not parse private key".into(), "bad hex".into()).message(), "could not parse private key");
    assert_eq!(EthereumClientError::ContractSourceNotFound.message(), "could not find contract source");
    assert_eq!(EthereumClientError::ContractCompilationError("no solc".into()).message(), "could not compile contracts");
    assert_eq!(EthereumClientError::ContractCompilationInternalError("e".into()).message(), "could not compile contracts");
    assert_eq!(EthereumClientError::AddressParseError("0x1".into()).message(), "could not parse address");
    assert_eq!(EthereumClientError::ContractNotFound("Ballot".into()).message(), "could not find contract: Ballot");
    assert_eq!(EthereumClientError::DeployerCreationError("x".into()).message(), "could not create deployer: x");
    assert_eq!(EthereumClientError::TransactionError("transaction reverted: no".into()).message(), "transaction reverted: no");
}
