//! The artifact side of the chain client: compiled contracts by name, attach
//! to a contract at a configured address, and the data a deployment needs.
//! Submitting transactions is left to the caller, which hands the outcome
//! back to [`EthereumClient::deployed_contract`].

use vstd::prelude::*;
use crate::address::{Address, is_address_text, address_bytes};

verus! {

#[verifier::external_type_specification]
#[verifier::external_body]
pub struct ExCompilerOutput(ethers_solc::CompilerOutput);

#[verifier::external_type_specification]
#[verifier::external_body]
pub struct ExAbi(ethers::abi::Abi);

#[verifier::external_type_specification]
#[verifier::external_body]
pub struct ExBytes(ethers::types::Bytes);

/// Names of the contracts in a compiler output.
pub uninterp spec fn compiled_contract_names(o: ethers_solc::CompilerOutput) -> Set<Seq<char>>;

/// The ABI of the contract that `find` yields for a name.
pub uninterp spec fn artifact_abi(o: ethers_solc::CompilerOutput, name: Seq<char>) -> ethers::abi::Abi;

/// The creation bytecode of the contract that `find` yields for a name.
pub uninterp spec fn artifact_code(o: ethers_solc::CompilerOutput, name: Seq<char>) -> ethers::types::Bytes;

/// Whether a compiler output holds a diagnostic of severity "error".
pub uninterp spec fn compile_failed(o: ethers_solc::CompilerOutput) -> bool;

/// The messages of a compiler output's diagnostics, in order.
pub uninterp spec fn diagnostic_messages(o: ethers_solc::CompilerOutput) -> Seq<Seq<char>>;

/// Relies on `CompilerOutput::find`: some contract of that name exists in the
/// output exactly when it returns one; its parts come from
/// `CompactContractRef::into_parts_or_default` (ABI and creation bytecode).
/// `find` takes the first match in the output's ordered maps, so the parts
/// depend on the output and the name alone.
#[verifier::external_body]
fn find_artifact(output: &ethers_solc::CompilerOutput, name: &str) -> (r: Option<(ethers::abi::Abi, ethers::types::Bytes)>)
    ensures
        r is Some <==> compiled_contract_names(*output).contains(name@),
        r matches Some(p) ==> p.0 == artifact_abi(*output, name@) && p.1 == artifact_code(*output, name@),
{
    match output.find(name) {
        Some(contract) => {
            let (abi, bytecode, _runtime) = contract.into_parts_or_default();
            Some((abi, bytecode))
        },
        None => None,
    }
}

/// Relies on `CompilerOutput::has_error`: some diagnostic has severity "error".
#[verifier::external_body]
fn output_has_error(output: &ethers_solc::CompilerOutput) -> (r: bool)
    ensures
        r == compile_failed(*output),
{
    output.has_error()
}

/// Relies on the public `errors` field of `CompilerOutput`: the `message` of
/// each diagnostic, in order.
#[verifier::external_body]
fn output_messages(output: &ethers_solc::CompilerOutput) -> (r: Vec<String>)
    ensures
        r@.len() == diagnostic_messages(*output).len(),
        forall|i: int| 0 <= i < r@.len() ==> #[trigger] r@[i]@ == diagnostic_messages(*output)[i],
{
    output.errors.iter().map(|e| e.message.clone()).collect()
}

/// Failures of the chain client.
#[derive(Debug)]
pub enum EthereumClientError {
    /// Startup configuration is missing or malformed; the text says which.
    AppError(String),
    /// The client could not be set up: what failed, and the cause.
    ClientInitError(String, String),
    /// The contract sources could not be found.
    ContractSourceNotFound,
    /// The compiler could not be run; the cause.
    ContractCompilationError(String),
    /// The compiler reported errors; their messages, one per line.
    ContractCompilationInternalError(String),
    /// The text does not name an address; the text.
    AddressParseError(String),
    /// No compiled contract has this name.
    ContractNotFound(String),
    /// The deployment transaction could not be built; the cause.
    DeployerCreationError(String),
    /// The node rejected the deployment or it was not confirmed; the cause.
    ContractDeploymentError(String),
    /// The node rejected a transaction; the (decoded) cause.
    TransactionError(String),
}

/// Messages joined with a line break between each two.
pub open spec fn join_lines(s: Seq<Seq<char>>) -> Seq<char>
    decreases s.len(),
{
    if s.len() == 0 {
        Seq::empty()
    } else if s.len() == 1 {
        s[0]
    } else {
        join_lines(s.drop_last()) + seq!['\n'] + s.last()
    }
}

/// The text of an error, as it is shown to users.
pub open spec fn error_text(e: EthereumClientError) -> Seq<char> {
    match e {
        EthereumClientError::AppError(m) => "failed to init client: "@ + m@,
        EthereumClientError::ClientInitError(what, _) => what@,
        EthereumClientError::ContractSourceNotFound => "could not find contract source"@,
        EthereumClientError::ContractCompilationError(_) => "could not compile contracts"@,
        EthereumClientError::ContractCompilationInternalError(_) => "could not compile contracts"@,
        EthereumClientError::AddressParseError(_) => "could not parse address"@,
        EthereumClientError::ContractNotFound(n) => "could not find contract: "@ + n@,
        EthereumClientError::DeployerCreationError(m) => "could not create deployer: "@ + m@,
        EthereumClientError::ContractDeploymentError(m) => "could not deploy contract: "@ + m@,
        EthereumClientError::TransactionError(m) => m@,
    }
}

impl EthereumClientError {
    /// The text of the error, as it is shown to users.
    pub fn message(&self) -> (r: String)
        ensures
            r@ == error_text(*self),
    {
        match self {
            EthereumClientError::AppError(m) => String::from_str("failed to init client: ").concat(
                m.as_str(),
            ),
            EthereumClientError::ClientInitError(what, _) => what.clone(),
            EthereumClientError::ContractSourceNotFound => String::from_str(
                "could not find contract source",
            ),
            EthereumClientError::ContractCompilationError(_) => String::from_str(
                "could not compile contracts",
            ),
            EthereumClientError::ContractCompilationInternalError(_) => String::from_str(
                "could not compile contracts",
            ),
            EthereumClientError::AddressParseError(_) => String::from_str("could not parse address"),
            EthereumClientError::ContractNotFound(n) => String::from_str(
                "could not find contract: ",
            ).concat(n.as_str()),
            EthereumClientError::DeployerCreationError(m) => String::from_str(
                "could not create deployer: ",
            ).concat(m.as_str()),
            EthereumClientError::ContractDeploymentError(m) => String::from_str(
                "could not deploy contract: ",
            ).concat(m.as_str()),
            EthereumClientError::TransactionError(m) => m.clone(),
        }
    }
}

/// One on-chain contract instance: the compiled contract it runs, by name,
/// and its address.
#[derive(Debug)]
pub struct ContractHandle {
    pub name: String,
    pub address: Address,
}

pub struct HandleView {
    pub name: Seq<char>,
    pub address: Address,
}

impl View for ContractHandle {
    type V = HandleView;

    open spec fn view(&self) -> HandleView {
        HandleView { name: self.name@, address: self.address }
    }
}

impl ContractHandle {
    /// A second handle to the same instance.
    pub fn share(&self) -> (r: ContractHandle)
        ensures
            r@ == self@,
    {
        ContractHandle { name: self.name.clone(), address: self.address }
    }

    /// The instance's address as `0x` and forty lower-case hex digits.
    pub fn address_hex(&self) -> (r: String)
        ensures
            r@ == crate::address::address_text(self.address),
    {
        self.address.to_hex()
    }
}

/// How a deployment submitted by the caller ended.
pub enum DeployOutcome {
    /// Mined; the new contract's address.
    Deployed(Address),
    /// The creation transaction could not be built; the cause.
    NotSubmitted(String),
    /// The node rejected the transaction or it was not confirmed; the cause.
    Failed(String),
}

/// Reads an address, reporting text that names none.
pub fn parse_address(text: &str) -> (r: Result<Address, EthereumClientError>)
    ensures
        r is Ok <==> is_address_text(text@),
        r matches Ok(a) ==> a.bytes@ == address_bytes(text@),
        r matches Err(e) ==> e matches EthereumClientError::AddressParseError(t) && t@ == text@,
{
    match Address::parse(text) {
        Some(a) => Ok(a),
        None => Err(EthereumClientError::AddressParseError(String::from_str(text))),
    }
}

/// The compiled contracts of a successful compilation, by name.
pub struct EthereumClient {
    contracts: ethers_solc::CompilerOutput,
}

impl EthereumClient {
    /// The compiler output the client was built from.
    pub closed spec fn output(&self) -> ethers_solc::CompilerOutput {
        self.contracts
    }

    /// Names of the compiled contracts.
    pub closed spec fn artifact_names(&self) -> Set<Seq<char>> {
        compiled_contract_names(self.contracts)
    }

    /// The ABI and creation bytecode compiled for a name.
    pub closed spec fn artifact_parts(&self, name: Seq<char>) -> (ethers::abi::Abi, ethers::types::Bytes) {
        (artifact_abi(self.contracts, name), artifact_code(self.contracts, name))
    }

    /// Takes a compiler output, refusing one that reports errors: the error
    /// then holds all diagnostic messages, one per line.
    pub fn new(contracts: ethers_solc::CompilerOutput) -> (r: Result<EthereumClient, EthereumClientError>)
        ensures
            r is Err <==> compile_failed(contracts),
            r matches Ok(c) ==> c.output() == contracts && c.artifact_names() == compiled_contract_names(
                contracts,
            ),
            r matches Err(e) ==> e matches EthereumClientError::ContractCompilationInternalError(m)
                && m@ == join_lines(diagnostic_messages(contracts)),
    {
        if output_has_error(&contracts) {
            let messages = output_messages(&contracts);
            let ghost all = diagnostic_messages(contracts);
            let mut text = String::new();
            let mut i: usize = 0;
            while i < messages.len()
                invariant
                    0 <= i <= messages@.len(),
                    messages@.len() == all.len(),
                    forall|j: int| 0 <= j < messages@.len() ==> #[trigger] messages@[j]@ == all[j],
                    text@ == join_lines(all.take(i as int)),
                decreases messages@.len() - i,
            {
                proof {
                    let t = all.take(i as int + 1);
                    assert(t.drop_last() =~= all.take(i as int));
                    assert(t.last() == all[i as int]);
                }
                if i > 0 {
                    let line_break = "\n";
                    proof {
                        reveal_strlit("\n");
                    }
                    text.append(line_break);
                }
                text.append(messages[i].as_str());
                proof {
                    if i == 0 {
                        assert(all.take(0) =~= Seq::<Seq<char>>::empty());
                    }
                }
                i = i + 1;
            }
            assert(all.take(messages@.len() as int) =~= all);
            Err(EthereumClientError::ContractCompilationInternalError(text))
        } else {
            Ok(EthereumClient { contracts })
        }
    }

    /// Whether a contract of this name was compiled.
    pub fn has_artifact(&self, name: &str) -> (r: bool)
        ensures
            r == self.artifact_names().contains(name@),
    {
        find_artifact(&self.contracts, name).is_some()
    }

    /// A handle on the contract `name` at the address in `address`, with no
    /// round trip to the node: the address is trusted as configured.
    pub fn contract_from_address(&self, name: &str, address: &str) -> (r: Result<ContractHandle, EthereumClientError>)
        ensures
            r is Ok <==> is_address_text(address@) && self.artifact_names().contains(name@),
            r matches Ok(h) ==> h.name@ == name@ && h.address.bytes@ == address_bytes(address@),
            !is_address_text(address@) ==> (r matches Err(EthereumClientError::AddressParseError(t))
                && t@ == address@),
            is_address_text(address@) && !self.artifact_names().contains(name@) ==> (
            r matches Err(EthereumClientError::ContractNotFound(n)) && n@ == name@),
    {
        let parsed = match parse_address(address) {
            Ok(a) => a,
            Err(e) => {
                return Err(e);
            },
        };
        if self.has_artifact(name) {
            Ok(ContractHandle { name: String::from_str(name), address: parsed })
        } else {
            Err(EthereumClientError::ContractNotFound(String::from_str(name)))
        }
    }

    /// The ABI and creation bytecode of the contract `name`, for a deployment.
    pub fn deploy_artifact(&self, name: &str) -> (r: Result<(ethers::abi::Abi, ethers::types::Bytes), EthereumClientError>)
        ensures
            r is Ok <==> self.artifact_names().contains(name@),
            r matches Ok(p) ==> p == self.artifact_parts(name@),
            r matches Err(e) ==> e matches EthereumClientError::ContractNotFound(n) && n@ == name@,
    {
        match find_artifact(&self.contracts, name) {
            Some(parts) => Ok(parts),
            None => Err(EthereumClientError::ContractNotFound(String::from_str(name))),
        }
    }

    /// The ABI that calls against the handle's contract are encoded with.
    pub fn abi_of(&self, handle: &ContractHandle) -> (r: Result<ethers::abi::Abi, EthereumClientError>)
        ensures
            r is Ok <==> self.artifact_names().contains(handle.name@),
            r matches Ok(a) ==> a == self.artifact_parts(handle.name@).0,
            r matches Err(e) ==> e matches EthereumClientError::ContractNotFound(n) && n@ == handle.name@,
    {
        match find_artifact(&self.contracts, handle.name.as_str()) {
            Some((abi, _)) => Ok(abi),
            None => Err(EthereumClientError::ContractNotFound(handle.name.clone())),
        }
    }

    /// The result of a deployment of `name` that ended with `outcome`.
    pub fn deployed_contract(name: &str, outcome: DeployOutcome) -> (r: Result<ContractHandle, EthereumClientError>)
        ensures
            outcome matches DeployOutcome::Deployed(a) ==> (r matches Ok(h) && h.name@ == name@
                && h.address == a),
            outcome matches DeployOutcome::NotSubmitted(m) ==> (
            r matches Err(EthereumClientError::DeployerCreationError(e)) && e@ == m@),
            outcome matches DeployOutcome::Failed(m) ==> (
            r matches Err(EthereumClientError::ContractDeploymentError(e)) && e@ == m@),
    {
        match outcome {
            DeployOutcome::Deployed(address) => Ok(ContractHandle { name: String::from_str(name), address }),
            DeployOutcome::NotSubmitted(m) => Err(EthereumClientError::DeployerCreationError(m)),
            DeployOutcome::Failed(m) => Err(EthereumClientError::ContractDeploymentError(m)),
        }
    }
}

} // verus!
