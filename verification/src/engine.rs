//! The payment pipeline: offline validation of a payment request, and
//! the decision core that drives it through the chain-RPC capability.
//!
//! All input/output — reading files, decrypting the keystore, speaking
//! to the RPC endpoint — happens outside the library. The caller feeds
//! each RPC outcome back as an event; every decision between two
//! outcomes is made and verified here.

use vstd::prelude::*;
use vstd::string::StringExecFns;
use crate::abi::{
    erc20_balance_of_calldata, erc20_transfer_calldata, parse_address, spec_address_hex,
    spec_balance_of_calldata, spec_transfer_calldata, spec_valid_address, Address,
};
use crate::amount::{
    all_digits, amount_value, digit_vals, human_to_raw, strip_keep1, amount_digits, u256_limit,
    val, RawAmount,
};
use crate::config::Config;
use crate::amount::chars_of_digits;
use crate::text::{dec_digits, u64_to_string};

verus! {

/// Why a payment failed. Each variant maps to one process exit code.
#[derive(Debug, Clone)]
pub enum PayError {
    InsufficientBalance(String),
    TransactionFailed(String),
    NetworkError(String),
    MissingConfig(String),
    InvalidConfig(String),
    WalletNotFound(String),
    InvalidArgument(String),
    Other(String),
}

impl PayError {
    /// The process exit code for this error.
    pub fn exit_code(&self) -> (code: u8)
        ensures
            code == match self {
                PayError::InsufficientBalance(_) => 1u8,
                PayError::TransactionFailed(_) => 2u8,
                PayError::NetworkError(_) => 3u8,
                PayError::MissingConfig(_) => 10u8,
                PayError::InvalidConfig(_) => 11u8,
                PayError::WalletNotFound(_) => 12u8,
                PayError::InvalidArgument(_) => 20u8,
                PayError::Other(_) => 1u8,
            },
    {
        match self {
            PayError::InsufficientBalance(_) => 1,
            PayError::TransactionFailed(_) => 2,
            PayError::NetworkError(_) => 3,
            PayError::MissingConfig(_) => 10,
            PayError::InvalidConfig(_) => 11,
            PayError::WalletNotFound(_) => 12,
            PayError::InvalidArgument(_) => 20,
            PayError::Other(_) => 1,
        }
    }

    /// A human-readable description: a fixed prefix naming the error
    /// class, followed by the carried message.
    pub fn message(&self) -> (r: String)
        ensures
            r@ == match self {
                PayError::InsufficientBalance(m) => "Insufficient balance: "@ + m@,
                PayError::TransactionFailed(m) => "Transaction failed: "@ + m@,
                PayError::NetworkError(m) => "Network error: "@ + m@,
                PayError::MissingConfig(m) => "Missing configuration: "@ + m@,
                PayError::InvalidConfig(m) => "Invalid configuration: "@ + m@,
                PayError::WalletNotFound(m) => "Wallet not found: "@ + m@,
                PayError::InvalidArgument(m) => "Invalid argument: "@ + m@,
                PayError::Other(m) => m@,
            },
    {
        match self {
            PayError::InsufficientBalance(m) => String::from_str("Insufficient balance: ").concat(
                m.as_str(),
            ),
            PayError::TransactionFailed(m) => String::from_str("Transaction failed: ").concat(
                m.as_str(),
            ),
            PayError::NetworkError(m) => String::from_str("Network error: ").concat(m.as_str()),
            PayError::MissingConfig(m) => String::from_str("Missing configuration: ").concat(
                m.as_str(),
            ),
            PayError::InvalidConfig(m) => String::from_str("Invalid configuration: ").concat(
                m.as_str(),
            ),
            PayError::WalletNotFound(m) => String::from_str("Wallet not found: ").concat(
                m.as_str(),
            ),
            PayError::InvalidArgument(m) => String::from_str("Invalid argument: ").concat(
                m.as_str(),
            ),
            PayError::Other(m) => m.clone(),
        }
    }
}

/// Where the wallet password comes from.
#[derive(Debug, Clone)]
pub enum PasswordSource {
    /// Supplied directly by the caller.
    Given(String),
    /// To be read from the file named by the caller.
    FromFile(String),
    /// To be read from the configured password file.
    FromConfigFile(String),
}

/// A payment request, as plain values: the caller's arguments together
/// with what only the environment knows (whether the wallet file and
/// the configured password file exist).
#[derive(Debug, Clone)]
pub struct PayArgs {
    /// Recipient address.
    pub to: String,
    /// Amount in human units.
    pub amount: String,
    /// Token contract address; none means a native transfer.
    pub token: Option<String>,
    /// RPC endpoint override.
    pub rpc: Option<String>,
    /// The resolved wallet keystore path.
    pub wallet_path: String,
    /// Whether a file exists at `wallet_path`.
    pub wallet_exists: bool,
    /// Password supplied directly.
    pub password: Option<String>,
    /// Path of a password file named by the caller.
    pub password_file: Option<String>,
    /// The configured password file path, when that file exists.
    pub config_password_file: Option<String>,
    /// Expected chain id override.
    pub chain_id: Option<u64>,
    /// Gas price override, in human Gwei.
    pub gas_price_gwei: Option<String>,
    /// Do not wait for the receipt.
    pub no_wait: bool,
}

/// Everything the submission sequence needs, validated.
#[derive(Debug, Clone)]
pub struct PaymentPlan {
    pub rpc_url: String,
    pub chain_id: Option<u64>,
    pub wallet_path: String,
    pub password: PasswordSource,
    pub to: Address,
    pub amount: RawAmount,
    pub token: Option<Address>,
    pub gas_override_wei: Option<RawAmount>,
    pub no_wait: bool,
}

impl PaymentPlan {
    pub open spec fn wf(&self) -> bool {
        &&& self.to.wf()
        &&& self.amount.wf()
        &&& (self.token matches Some(t) ==> t.wf())
        &&& (self.gas_override_wei matches Some(g) ==> g.wf())
    }
}

/// The network settings suffice for a payment.
pub open spec fn network_complete(c: Config) -> bool {
    c.network.rpc_url is Some && c.network.chain_id is Some
}

/// The token decimal count used for amounts.
pub open spec fn spec_decimals(c: Config) -> u8 {
    match c.payment.default_token_decimals {
        Some(d) => d,
        None => 6,
    }
}

/// Some password source is available.
pub open spec fn has_password_source(args: PayArgs) -> bool {
    args.password is Some || args.password_file is Some || args.config_password_file is Some
}

/// The amount text denotes a representable raw amount at `d` decimals.
pub open spec fn amount_ok(amount: Seq<char>, d: u8) -> bool {
    crate::amount::valid_amount(amount) && amount_value(amount, d as nat) < u256_limit()
}

/// The caller's token argument, if any, is a valid address.
pub open spec fn token_arg_ok(args: PayArgs) -> bool {
    match args.token {
        Some(t) => spec_valid_address(t@),
        None => true,
    }
}

/// The caller's gas price, if any, denotes a representable amount of
/// wei at nine decimals (wei per Gwei).
pub open spec fn gas_arg_ok(args: PayArgs) -> bool {
    match args.gas_price_gwei {
        Some(g) => amount_ok(g@, 9),
        None => true,
    }
}

/// All of the plan's inputs are acceptable.
pub open spec fn plan_acceptable(args: PayArgs, c: Config) -> bool {
    &&& network_complete(c)
    &&& args.wallet_exists
    &&& has_password_source(args)
    &&& spec_valid_address(args.to@)
    &&& amount_ok(args.amount@, spec_decimals(c))
    &&& token_arg_ok(args)
    &&& gas_arg_ok(args)
}

/// The password source the plan must choose: a directly given password
/// wins over a caller-named file, which wins over the configured file.
pub open spec fn password_choice_ok(args: PayArgs, chosen: PasswordSource) -> bool {
    if args.password is Some {
        chosen matches PasswordSource::Given(p) && p == args.password->0
    } else if args.password_file is Some {
        chosen matches PasswordSource::FromFile(f) && f == args.password_file->0
    } else {
        chosen matches PasswordSource::FromConfigFile(f) && f == args.config_password_file->0
    }
}

/// The token the plan must transfer: the caller's token if given, else
/// the configured default token when it is a valid address, else none
/// (a native transfer).
pub open spec fn token_choice_ok(args: PayArgs, c: Config, chosen: Option<Address>) -> bool {
    match args.token {
        Some(t) => chosen matches Some(a) && a.wf() && a.hex@ == spec_address_hex(t@),
        None => match c.payment.default_token {
            Some(t) => if spec_valid_address(t@) {
                chosen matches Some(a) && a.wf() && a.hex@ == spec_address_hex(t@)
            } else {
                chosen is None
            },
            None => chosen is None,
        },
    }
}

/// Validate a payment request, in the pipeline's fail-fast order:
/// network completeness, wallet presence, password availability,
/// recipient address, amount, token address, gas price. The first
/// failing step decides the error; when all pass, the plan pins every
/// field the submission sequence will use.
pub fn plan_payment(args: PayArgs, config: &Config) -> (r: Result<PaymentPlan, PayError>)
    ensures
        r is Ok <==> plan_acceptable(args, *config),
        !network_complete(*config) ==> (r matches Err(e) && (e matches PayError::MissingConfig(m)
            && m@ == "Network configuration is incomplete. Run: x402-config use-network <network-name>"@)),
        network_complete(*config) && !args.wallet_exists ==> (r matches Err(e) && (
        e matches PayError::WalletNotFound(m) && m@ == args.wallet_path@)),
        network_complete(*config) && args.wallet_exists && !has_password_source(args) ==> (
        r matches Err(e) && (e matches PayError::InvalidArgument(m) && m@
            == "No password provided. Use --password, --password-file, or configure wallet.password_file"@)),
        network_complete(*config) && args.wallet_exists && has_password_source(args)
            && !spec_valid_address(args.to@) ==> (r matches Err(e) && (
        e matches PayError::InvalidArgument(m) && m@ == "Invalid recipient address: "@
            + args.to@)),
        network_complete(*config) && args.wallet_exists && has_password_source(args)
            && spec_valid_address(args.to@) && !amount_ok(args.amount@, spec_decimals(*config))
            ==> (r matches Err(e) && (e matches PayError::InvalidArgument(m) && m@
            == "Invalid amount: "@ + args.amount@)),
        network_complete(*config) && args.wallet_exists && has_password_source(args)
            && spec_valid_address(args.to@) && amount_ok(args.amount@, spec_decimals(*config))
            && !token_arg_ok(args) ==> (r matches Err(e) && (
        e matches PayError::InvalidArgument(m) && m@ == "Invalid token address: "@
            + args.token->0@)),
        network_complete(*config) && args.wallet_exists && has_password_source(args)
            && spec_valid_address(args.to@) && amount_ok(args.amount@, spec_decimals(*config))
            && token_arg_ok(args) && !gas_arg_ok(args) ==> (r matches Err(e) && (
        e matches PayError::InvalidArgument(m) && m@ == "Invalid gas price: "@
            + args.gas_price_gwei->0@)),
        r matches Ok(plan) ==> {
            &&& plan.wf()
            &&& plan.rpc_url@ == (match args.rpc {
                Some(u) => u@,
                None => config.network.rpc_url->0@,
            })
            &&& plan.chain_id == (if args.chain_id is Some {
                args.chain_id
            } else {
                config.network.chain_id
            })
            &&& plan.wallet_path == args.wallet_path
            &&& password_choice_ok(args, plan.password)
            &&& plan.to.hex@ == spec_address_hex(args.to@)
            &&& plan.amount.value() == amount_value(args.amount@, spec_decimals(*config) as nat)
            &&& plan.amount.digits@ == strip_keep1(
                amount_digits(args.amount@, spec_decimals(*config) as nat),
            )
            &&& token_choice_ok(args, *config, plan.token)
            &&& (match args.gas_price_gwei {
                Some(g) => plan.gas_override_wei matches Some(w) && w.value() == amount_value(
                    g@,
                    9,
                ),
                None => plan.gas_override_wei is None,
            })
            &&& plan.no_wait == args.no_wait
        },
{
    // network must be configured
    if !(config.network.rpc_url.is_some() && config.network.chain_id.is_some()) {
        return Err(
            PayError::MissingConfig(
                "Network configuration is incomplete. Run: x402-config use-network <network-name>".to_owned(),
            ),
        );
    }
    let rpc_url = match args.rpc {
        Some(u) => u,
        None => match &config.network.rpc_url {
            Some(u) => u.clone(),
            None => {
                proof {
                    assert(false);
                }
                return Err(PayError::MissingConfig("RPC URL not configured".to_owned()));
            },
        },
    };
    let chain_id = if args.chain_id.is_some() {
        args.chain_id
    } else {
        config.network.chain_id
    };
    // the wallet file must exist
    if !args.wallet_exists {
        return Err(PayError::WalletNotFound(args.wallet_path));
    }
    // a password source must be available
    let password = if let Some(p) = args.password {
        PasswordSource::Given(p)
    } else if let Some(f) = args.password_file {
        PasswordSource::FromFile(f)
    } else if let Some(f) = args.config_password_file {
        PasswordSource::FromConfigFile(f)
    } else {
        return Err(
            PayError::InvalidArgument(
                "No password provided. Use --password, --password-file, or configure wallet.password_file".to_owned(),
            ),
        );
    };
    // the recipient must be an address
    let to = match parse_address(args.to.as_str()) {
        Some(a) => a,
        None => {
            return Err(
                PayError::InvalidArgument(
                    String::from_str("Invalid recipient address: ").concat(args.to.as_str()),
                ),
            );
        },
    };
    // the amount must convert to raw units
    let decimals = match config.payment.default_token_decimals {
        Some(d) => d,
        None => 6,
    };
    let amount = match human_to_raw(args.amount.as_str(), decimals) {
        Ok(a) => a,
        Err(_) => {
            return Err(
                PayError::InvalidArgument(
                    String::from_str("Invalid amount: ").concat(args.amount.as_str()),
                ),
            );
        },
    };
    // the token, when named, must be an address; an unusable configured
    // default falls back to a native transfer
    let token = match &args.token {
        Some(t) => match parse_address(t.as_str()) {
            Some(a) => Some(a),
            None => {
                return Err(
                    PayError::InvalidArgument(
                        String::from_str("Invalid token address: ").concat(t.as_str()),
                    ),
                );
            },
        },
        None => match &config.payment.default_token {
            Some(t) => parse_address(t.as_str()),
            None => None,
        },
    };
    // the gas price override, when given, must convert to wei
    let gas_override_wei = match &args.gas_price_gwei {
        Some(g) => match human_to_raw(g.as_str(), 9) {
            Ok(w) => Some(w),
            Err(_) => {
                return Err(
                    PayError::InvalidArgument(
                        String::from_str("Invalid gas price: ").concat(g.as_str()),
                    ),
                );
            },
        },
        None => None,
    };
    Ok(
        PaymentPlan {
            rpc_url,
            chain_id,
            wallet_path: args.wallet_path,
            password,
            to,
            amount,
            token,
            gas_override_wei,
            no_wait: args.no_wait,
        },
    )
}

} // verus!

verus! {

// ===== The submission sequence =====

/// What the engine asks its driver to do next.
#[derive(Debug)]
pub enum Action {
    /// Ask the RPC endpoint for its chain id.
    FetchChainId,
    /// Ask the RPC endpoint for the current gas price.
    FetchGasPrice,
    /// Call the token contract with `balanceOf(owner)` calldata.
    FetchTokenBalance { token: Address, calldata: Vec<u8> },
    /// Ask for the native balance of the owner.
    FetchNativeBalance { owner: Address },
    /// Submit a token transfer: a call of the token contract with
    /// `transfer(to, amount)` calldata at the given gas price.
    SubmitToken { token: Address, calldata: Vec<u8>, gas_price_wei: RawAmount },
    /// Submit a native transfer at the given gas price.
    SubmitNative { to: Address, amount: RawAmount, gas_price_wei: RawAmount },
    /// Poll for the receipt of the submitted transaction.
    PollReceipt,
    /// The run is over, with the transaction hash or an error.
    Finish(Result<String, PayError>),
}

/// What the driver reports back.
#[derive(Debug, Clone)]
pub enum RpcEvent {
    /// The chain id of the live network.
    ChainId(u64),
    /// The current gas price, in wei.
    GasPrice(u128),
    /// A balance, as a decimal numeral.
    Balance(String),
    /// The transaction was accepted; its hash.
    Submitted(String),
    /// The receipt arrived, with the transaction's success status.
    Receipt { success: bool },
    /// The requested call failed in transport or at the endpoint.
    Failed(String),
}

/// The engine's position in the submission sequence.
#[derive(Debug, Clone)]
pub enum Engine {
    /// Waiting for the live chain id, to check it against the plan.
    CheckChainId { plan: PaymentPlan, from: Address },
    /// Waiting for the network's gas price.
    GetGas { plan: PaymentPlan, from: Address },
    /// Waiting for the balance, to check sufficiency.
    CheckBalance { plan: PaymentPlan, from: Address, gas_wei: RawAmount },
    /// The transfer has been handed over for submission.
    AwaitSubmit { no_wait: bool },
    /// The transfer was submitted; waiting for its receipt.
    AwaitReceipt { tx_hash: String },
    /// Nothing further happens.
    Finished,
}

/// The engine's data is well formed.
pub open spec fn engine_wf(e: Engine) -> bool {
    match e {
        Engine::CheckChainId { plan, from } => plan.wf() && from.wf(),
        Engine::GetGas { plan, from } => plan.wf() && from.wf(),
        Engine::CheckBalance { plan, from, gas_wei } => plan.wf() && from.wf() && gas_wei.wf(),
        Engine::AwaitSubmit { .. } => true,
        Engine::AwaitReceipt { .. } => true,
        Engine::Finished => true,
    }
}

/// The numeric value of a balance event, when it is a decimal numeral
/// that fits in 256 bits.
pub open spec fn balance_of_event(b: Seq<char>) -> Option<nat> {
    if all_digits(b) && val(digit_vals(b)) < u256_limit() {
        Some(val(digit_vals(b)))
    } else {
        None
    }
}

/// What a native transfer must be able to pay: the amount plus the
/// standard transfer gas at the resolved gas price.
pub open spec fn native_required(plan: PaymentPlan, gas: RawAmount) -> nat {
    plan.amount.value() + 21000 * gas.value()
}

/// The run ends with the given error.
pub open spec fn finishes_err(s2: Engine, a: Action, e: PayError) -> bool {
    s2 is Finished && (a matches Action::Finish(res) && res == Err::<String, PayError>(e))
}

/// The run ends with an error of the given shape.
pub open spec fn finishes_network_err(s2: Engine, a: Action, msg: Seq<char>) -> bool {
    s2 is Finished && (a matches Action::Finish(res) && (res matches Err(e) && (
    e matches PayError::NetworkError(m) && m@ == msg)))
}

pub open spec fn finishes_tx_err(s2: Engine, a: Action, msg: Seq<char>) -> bool {
    s2 is Finished && (a matches Action::Finish(res) && (res matches Err(e) && (
    e matches PayError::TransactionFailed(m) && m@ == msg)))
}

pub open spec fn finishes_insufficient(s2: Engine, a: Action, msg: Seq<char>) -> bool {
    s2 is Finished && (a matches Action::Finish(res) && (res matches Err(e) && (
    e matches PayError::InsufficientBalance(m) && m@ == msg)))
}

pub open spec fn finishes_unexpected(s2: Engine, a: Action) -> bool {
    s2 is Finished && (a matches Action::Finish(res) && (res matches Err(e) && (
    e matches PayError::Other(m) && m@ == "Unexpected RPC response"@)))
}

/// Two addresses spell the same hex digits.
pub open spec fn same_address(a: Address, b: Address) -> bool {
    a.hex@ == b.hex@
}

/// Two raw amounts have the same digits.
pub open spec fn same_amount(a: RawAmount, b: RawAmount) -> bool {
    a.digits@ == b.digits@
}

/// The action that fetches the right balance for the plan.
pub open spec fn balance_fetch_action(plan: PaymentPlan, from: Address, a: Action) -> bool {
    match plan.token {
        Some(t) => a matches Action::FetchTokenBalance { token, calldata } && same_address(token, t)
            && spec_balance_of_calldata(calldata@, from),
        None => a matches Action::FetchNativeBalance { owner } && same_address(owner, from),
    }
}

/// After the chain id question is settled: fetch the gas price, unless
/// an override fixes it, in which case go straight to the balance.
pub open spec fn gas_or_balance_start(plan: PaymentPlan, from: Address, s2: Engine, a: Action) -> bool {
    match plan.gas_override_wei {
        Some(g) => (s2 matches Engine::CheckBalance { plan: p2, from: f2, gas_wei } && p2 == plan
            && f2 == from && same_amount(gas_wei, g)) && balance_fetch_action(plan, from, a),
        None => s2 == (Engine::GetGas { plan, from }) && a is FetchGasPrice,
    }
}

/// The sufficiency decision on a reported balance: a token balance
/// must cover the amount, a native balance must cover the amount plus
/// the transfer gas; an insufficient balance ends the run without any
/// submission, a sufficient one hands the transfer over.
pub open spec fn balance_step(
    plan: PaymentPlan,
    from: Address,
    gas: RawAmount,
    b: Seq<char>,
    s2: Engine,
    a: Action,
) -> bool {
    match balance_of_event(b) {
        None => finishes_network_err(s2, a, "Unexpected balance response"@),
        Some(bal) => match plan.token {
            Some(tok) => if bal < plan.amount.value() {
                finishes_insufficient(s2, a, "Token balance is less than amount"@)
            } else {
                (s2 matches Engine::AwaitSubmit { no_wait } && no_wait == plan.no_wait) && (
                a matches Action::SubmitToken { token, calldata, gas_price_wei } && same_address(
                    token,
                    tok,
                ) && spec_transfer_calldata(calldata@, plan.to, plan.amount.value())
                    && same_amount(gas_price_wei, gas))
            },
            None => if bal < native_required(plan, gas) {
                finishes_insufficient(s2, a, "Balance is less than amount plus gas"@)
            } else {
                (s2 matches Engine::AwaitSubmit { no_wait } && no_wait == plan.no_wait) && (
                a matches Action::SubmitNative { to, amount, gas_price_wei } && same_address(
                    to,
                    plan.to,
                ) && same_amount(amount, plan.amount) && same_amount(gas_price_wei, gas))
            },
        },
    }
}

/// The transition relation of the engine: everything `on_event` may do.
pub open spec fn steps_to(e: Engine, ev: RpcEvent, s2: Engine, a: Action) -> bool {
    match e {
        Engine::CheckChainId { plan, from } => match ev {
            RpcEvent::ChainId(actual) => match plan.chain_id {
                Some(expected) => if actual != expected {
                    s2 is Finished && (a matches Action::Finish(res) && (res matches Err(pe) && (
                    pe matches PayError::InvalidConfig(m) && m@ == "Chain ID mismatch: expected "@
                        + chars_of_digits(dec_digits(expected as nat)) + ", got "@
                        + chars_of_digits(dec_digits(actual as nat)))))
                } else {
                    gas_or_balance_start(plan, from, s2, a)
                },
                None => finishes_unexpected(s2, a),
            },
            RpcEvent::Failed(m) => finishes_network_err(s2, a, "Failed to get chain ID: "@ + m@),
            _ => finishes_unexpected(s2, a),
        },
        Engine::GetGas { plan, from } => match ev {
            RpcEvent::GasPrice(p) => (s2 matches Engine::CheckBalance { plan: p2, from: f2, gas_wei }
                && p2 == plan && f2 == from && gas_wei.wf() && gas_wei.value() == p)
                && balance_fetch_action(plan, from, a),
            RpcEvent::Failed(m) => finishes_network_err(s2, a, "Failed to get gas price: "@ + m@),
            _ => finishes_unexpected(s2, a),
        },
        Engine::CheckBalance { plan, from, gas_wei } => match ev {
            RpcEvent::Balance(b) => balance_step(plan, from, gas_wei, b@, s2, a),
            RpcEvent::Failed(m) => finishes_network_err(s2, a, "Failed to get balance: "@ + m@),
            _ => finishes_unexpected(s2, a),
        },
        Engine::AwaitSubmit { no_wait } => match ev {
            RpcEvent::Submitted(h) => if no_wait {
                s2 is Finished && (a matches Action::Finish(res) && res == Ok::<String, PayError>(h))
            } else {
                (s2 matches Engine::AwaitReceipt { tx_hash } && tx_hash == h) && a is PollReceipt
            },
            RpcEvent::Failed(m) => finishes_tx_err(s2, a, "Failed to send transaction: "@ + m@),
            _ => finishes_unexpected(s2, a),
        },
        Engine::AwaitReceipt { tx_hash } => match ev {
            RpcEvent::Receipt { success } => if success {
                s2 is Finished && (a matches Action::Finish(res) && res == Ok::<
                    String,
                    PayError,
                >(tx_hash))
            } else {
                finishes_tx_err(s2, a, "Transaction reverted"@)
            },
            RpcEvent::Failed(m) => finishes_tx_err(s2, a, "Transaction failed: "@ + m@),
            _ => finishes_unexpected(s2, a),
        },
        Engine::Finished => false,
    }
}

/// Begin the submission sequence: check the chain id when the plan
/// pins one, else resolve the gas price and balance.
pub fn start(plan: PaymentPlan, from: Address) -> (r: (Engine, Action))
    requires
        plan.wf(),
        from.wf(),
    ensures
        engine_wf(r.0),
        plan.chain_id is Some ==> r.0 == (Engine::CheckChainId { plan, from }) && r.1
            is FetchChainId,
        plan.chain_id is None ==> gas_or_balance_start(plan, from, r.0, r.1),
{
    if plan.chain_id.is_some() {
        (Engine::CheckChainId { plan, from }, Action::FetchChainId)
    } else {
        begin_balance(plan, from)
    }
}

/// Move to the balance check, with the overridden or to-be-fetched gas
/// price.
fn begin_balance(plan: PaymentPlan, from: Address) -> (r: (Engine, Action))
    requires
        plan.wf(),
        from.wf(),
    ensures
        engine_wf(r.0),
        gas_or_balance_start(plan, from, r.0, r.1),
{
    match &plan.gas_override_wei {
        Some(g) => {
            let gas = g.dup();
            let action = balance_fetch(&plan, &from);
            (Engine::CheckBalance { plan, from, gas_wei: gas }, action)
        },
        None => (Engine::GetGas { plan, from }, Action::FetchGasPrice),
    }
}

/// The balance request for the plan's transfer kind.
fn balance_fetch(plan: &PaymentPlan, from: &Address) -> (a: Action)
    requires
        plan.wf(),
        from.wf(),
    ensures
        balance_fetch_action(*plan, *from, a),
{
    match &plan.token {
        Some(t) => {
            let calldata = erc20_balance_of_calldata(from);
            Action::FetchTokenBalance { token: t.dup(), calldata }
        },
        None => Action::FetchNativeBalance { owner: from.dup() },
    }
}

} // verus!

verus! {

/// Feed one RPC outcome to the engine and get its next request. The
/// behavior is exactly the transition relation `steps_to`.
pub fn on_event(e: Engine, ev: RpcEvent) -> (r: (Engine, Action))
    requires
        engine_wf(e),
        !(e is Finished),
    ensures
        steps_to(e, ev, r.0, r.1),
        engine_wf(r.0),
{
    match e {
        Engine::CheckChainId { plan, from } => match ev {
            RpcEvent::ChainId(actual) => match plan.chain_id {
                Some(expected) => {
                    if actual != expected {
                        let m = String::from_str("Chain ID mismatch: expected ").concat(
                            u64_to_string(expected).as_str(),
                        ).concat(", got ").concat(u64_to_string(actual).as_str());
                        (Engine::Finished, Action::Finish(Err(PayError::InvalidConfig(m))))
                    } else {
                        begin_balance(plan, from)
                    }
                },
                None => unexpected_response(),
            },
            RpcEvent::Failed(m) => (
                Engine::Finished,
                Action::Finish(
                    Err(
                        PayError::NetworkError(
                            String::from_str("Failed to get chain ID: ").concat(m.as_str()),
                        ),
                    ),
                ),
            ),
            _ => unexpected_response(),
        },
        Engine::GetGas { plan, from } => match ev {
            RpcEvent::GasPrice(p) => {
                let digits = crate::amount::u128_to_digits(p);
                proof {
                    crate::amount::lemma_u128_fits_u256(p);
                }
                let gas = RawAmount { digits };
                let action = balance_fetch(&plan, &from);
                (Engine::CheckBalance { plan, from, gas_wei: gas }, action)
            },
            RpcEvent::Failed(m) => (
                Engine::Finished,
                Action::Finish(
                    Err(
                        PayError::NetworkError(
                            String::from_str("Failed to get gas price: ").concat(m.as_str()),
                        ),
                    ),
                ),
            ),
            _ => unexpected_response(),
        },
        Engine::CheckBalance { plan, from, gas_wei } => match ev {
            RpcEvent::Balance(b) => match RawAmount::from_decimal_str(b.as_str()) {
                None => (
                    Engine::Finished,
                    Action::Finish(
                        Err(PayError::NetworkError("Unexpected balance response".to_owned())),
                    ),
                ),
                Some(bal) => match &plan.token {
                    Some(tok) => {
                        if crate::amount::dec_lt(&bal.digits, &plan.amount.digits) {
                            (
                                Engine::Finished,
                                Action::Finish(
                                    Err(
                                        PayError::InsufficientBalance(
                                            "Token balance is less than amount".to_owned(),
                                        ),
                                    ),
                                ),
                            )
                        } else {
                            let calldata = erc20_transfer_calldata(&plan.to, &plan.amount);
                            let token = tok.dup();
                            (
                                Engine::AwaitSubmit { no_wait: plan.no_wait },
                                Action::SubmitToken { token, calldata, gas_price_wei: gas_wei },
                            )
                        }
                    },
                    None => {
                        let scale = crate::text::u64_to_dec_digits(21000);
                        proof {
                            crate::text::lemma_dec_digits_ok(21000);
                            crate::text::lemma_dec_digits_val(21000);
                            crate::amount::lemma_u256_digit_len(gas_wei.digits@);
                            assert(crate::amount::pow10(0) == 1);
                            assert(crate::amount::pow10(1) == 10);
                            assert(crate::amount::pow10(2) == 100);
                            assert(crate::amount::pow10(3) == 1000);
                            assert(crate::amount::pow10(4) == 10000);
                            assert(crate::amount::pow10(5) == 100000);
                            crate::amount::lemma_canonical_len(scale@, 5);
                        }
                        let fee = crate::amount::dec_mul(&gas_wei.digits, &scale);
                        proof {
                            crate::amount::lemma_val_bound(gas_wei.digits@);
                            crate::amount::lemma_pow10_add(gas_wei.digits@.len(), 5);
                            assert(val(fee@) < crate::amount::pow10(gas_wei.digits@.len() + 5))
                                by (nonlinear_arith)
                                requires
                                    val(fee@) == val(gas_wei.digits@) * 21000,
                                    val(gas_wei.digits@) < crate::amount::pow10(
                                        gas_wei.digits@.len(),
                                    ),
                                    crate::amount::pow10(gas_wei.digits@.len()) * crate::amount::pow10(
                                        5,
                                    ) == crate::amount::pow10(gas_wei.digits@.len() + 5),
                                    crate::amount::pow10(5) == 100000,
                            ;
                            crate::amount::lemma_canonical_len(
                                fee@,
                                (gas_wei.digits@.len() + 5) as nat,
                            );
                            crate::amount::lemma_u256_digit_len(plan.amount.digits@);
                        }
                        let total = crate::amount::dec_add(&plan.amount.digits, &fee);
                        if crate::amount::dec_lt(&bal.digits, &total) {
                            (
                                Engine::Finished,
                                Action::Finish(
                                    Err(
                                        PayError::InsufficientBalance(
                                            "Balance is less than amount plus gas".to_owned(),
                                        ),
                                    ),
                                ),
                            )
                        } else {
                            (
                                Engine::AwaitSubmit { no_wait: plan.no_wait },
                                Action::SubmitNative {
                                    to: plan.to,
                                    amount: plan.amount,
                                    gas_price_wei: gas_wei,
                                },
                            )
                        }
                    },
                },
            },
            RpcEvent::Failed(m) => (
                Engine::Finished,
                Action::Finish(
                    Err(
                        PayError::NetworkError(
                            String::from_str("Failed to get balance: ").concat(m.as_str()),
                        ),
                    ),
                ),
            ),
            _ => unexpected_response(),
        },
        Engine::AwaitSubmit { no_wait } => match ev {
            RpcEvent::Submitted(h) => {
                if no_wait {
                    (Engine::Finished, Action::Finish(Ok(h)))
                } else {
                    (Engine::AwaitReceipt { tx_hash: h }, Action::PollReceipt)
                }
            },
            RpcEvent::Failed(m) => (
                Engine::Finished,
                Action::Finish(
                    Err(
                        PayError::TransactionFailed(
                            String::from_str("Failed to send transaction: ").concat(m.as_str()),
                        ),
                    ),
                ),
            ),
            _ => unexpected_response(),
        },
        Engine::AwaitReceipt { tx_hash } => match ev {
            RpcEvent::Receipt { success } => {
                if success {
                    (Engine::Finished, Action::Finish(Ok(tx_hash)))
                } else {
                    (
                        Engine::Finished,
                        Action::Finish(
                            Err(PayError::TransactionFailed("Transaction reverted".to_owned())),
                        ),
                    )
                }
            },
            RpcEvent::Failed(m) => (
                Engine::Finished,
                Action::Finish(
                    Err(
                        PayError::TransactionFailed(
                            String::from_str("Transaction failed: ").concat(m.as_str()),
                        ),
                    ),
                ),
            ),
            _ => unexpected_response(),
        },
        Engine::Finished => {
            proof {
                assert(false);
            }
            unexpected_response()
        },
    }
}

/// The run ends because the event does not answer the pending request.
fn unexpected_response() -> (r: (Engine, Action))
    ensures
        finishes_unexpected(r.0, r.1),
{
    (Engine::Finished, Action::Finish(Err(PayError::Other("Unexpected RPC response".to_owned()))))
}

} // verus!

verus! {

// ===== Safety laws of the submission sequence =====

/// The action hands a transfer over for submission.
pub open spec fn is_submit(a: Action) -> bool {
    a matches Action::SubmitToken { .. } || a matches Action::SubmitNative { .. }
}

/// The action ends the run reporting an insufficient balance.
pub open spec fn is_insufficient_finish(a: Action) -> bool {
    a matches Action::Finish(res) && (res matches Err(e)
        && e matches PayError::InsufficientBalance(_))
}

/// The engine has not yet handed a transfer over.
pub open spec fn pre_submit(e: Engine) -> bool {
    ||| e matches Engine::CheckChainId { .. }
    ||| e matches Engine::GetGas { .. }
    ||| e matches Engine::CheckBalance { .. }
}

/// Facts every single transition obeys: a submission happens only from
/// a pre-submission state and leaves it for good; an insufficiency
/// verdict is reached only in a pre-submission state and ends the run;
/// nothing steps from the final state.
pub proof fn lemma_step_facts(e: Engine, ev: RpcEvent, s2: Engine, a: Action)
    requires
        steps_to(e, ev, s2, a),
    ensures
        is_submit(a) ==> pre_submit(e) && !pre_submit(s2),
        !pre_submit(e) ==> !pre_submit(s2),
        is_insufficient_finish(a) ==> pre_submit(e) && s2 is Finished,
        !(e is Finished),
        !(is_submit(a) && is_insufficient_finish(a)),
{
}

/// The given sequences record a run of the engine: `states` starts at
/// `s0`, and each event steps the engine by the transition relation,
/// producing the matching action.
pub open spec fn valid_history(
    s0: Engine,
    events: Seq<RpcEvent>,
    states: Seq<Engine>,
    actions: Seq<Action>,
) -> bool {
    &&& states.len() == events.len() + 1
    &&& actions.len() == events.len()
    &&& states[0] == s0
    &&& forall|i: int|
        0 <= i < events.len() ==> #[trigger] steps_to(states[i], events[i], states[i + 1], actions[i])
}

/// One recorded step of a valid history.
pub proof fn lemma_history_step(
    s0: Engine,
    events: Seq<RpcEvent>,
    states: Seq<Engine>,
    actions: Seq<Action>,
    i: int,
)
    requires
        valid_history(s0, events, states, actions),
        0 <= i < events.len(),
    ensures
        steps_to(states[i], events[i], states[i + 1], actions[i]),
{
}

/// Once the engine has left the pre-submission states it never
/// returns to them.
pub proof fn lemma_not_pre_submit_propagates(
    s0: Engine,
    events: Seq<RpcEvent>,
    states: Seq<Engine>,
    actions: Seq<Action>,
    i: int,
    j: int,
)
    requires
        valid_history(s0, events, states, actions),
        0 <= i <= j < states.len(),
        !pre_submit(states[i]),
    ensures
        !pre_submit(states[j]),
    decreases j - i,
{
    if j > i {
        lemma_not_pre_submit_propagates(s0, events, states, actions, i, j - 1);
        lemma_history_step(s0, events, states, actions, j - 1);
        lemma_step_facts(states[j - 1], events[j - 1], states[j], actions[j - 1]);
    }
}

/// Once the engine is finished it stays finished — in fact no further
/// event can be a step at all.
pub proof fn lemma_finished_propagates(
    s0: Engine,
    events: Seq<RpcEvent>,
    states: Seq<Engine>,
    actions: Seq<Action>,
    i: int,
    j: int,
)
    requires
        valid_history(s0, events, states, actions),
        0 <= i <= j < states.len(),
        states[i] is Finished,
    ensures
        states[j] is Finished,
    decreases j - i,
{
    if j > i {
        lemma_finished_propagates(s0, events, states, actions, i, j - 1);
        lemma_history_step(s0, events, states, actions, j - 1);
        lemma_step_facts(states[j - 1], events[j - 1], states[j], actions[j - 1]);
    }
}

/// FUNDS SAFETY: in a run of the engine from any pre-submission state,
/// if some step reports an insufficient balance, then no step of the
/// run — earlier or later — hands a transfer over for submission.
pub proof fn lemma_insufficient_balance_never_submits(
    s0: Engine,
    events: Seq<RpcEvent>,
    states: Seq<Engine>,
    actions: Seq<Action>,
    k: int,
)
    requires
        valid_history(s0, events, states, actions),
        pre_submit(s0),
        0 <= k < actions.len(),
        is_insufficient_finish(actions[k]),
    ensures
        forall|j: int| 0 <= j < actions.len() ==> !is_submit(#[trigger] actions[j]),
{
    assert forall|j: int| 0 <= j < actions.len() implies !is_submit(#[trigger] actions[j]) by {
        lemma_history_step(s0, events, states, actions, j);
        lemma_history_step(s0, events, states, actions, k);
        lemma_step_facts(states[j], events[j], states[j + 1], actions[j]);
        lemma_step_facts(states[k], events[k], states[k + 1], actions[k]);
        if is_submit(actions[j]) {
            if j < k {
                lemma_not_pre_submit_propagates(s0, events, states, actions, j + 1, k);
            } else if j > k {
                lemma_finished_propagates(s0, events, states, actions, k + 1, j);
            }
        }
    }
}

/// AT-MOST-ONCE SUBMISSION: a run of the engine from any
/// pre-submission state hands a transfer over at most once.
pub proof fn lemma_at_most_one_submission(
    s0: Engine,
    events: Seq<RpcEvent>,
    states: Seq<Engine>,
    actions: Seq<Action>,
    j: int,
    k: int,
)
    requires
        valid_history(s0, events, states, actions),
        pre_submit(s0),
        0 <= j <= k < actions.len(),
        is_submit(actions[j]),
        is_submit(actions[k]),
    ensures
        j == k,
{
    if j < k {
        lemma_history_step(s0, events, states, actions, j);
        lemma_history_step(s0, events, states, actions, k);
        lemma_step_facts(states[j], events[j], states[j + 1], actions[j]);
        lemma_not_pre_submit_propagates(s0, events, states, actions, j + 1, k);
        lemma_step_facts(states[k], events[k], states[k + 1], actions[k]);
    }
}

/// CHAIN-ID GUARD: when the plan pins a chain id and the live network
/// reports a different one, the run ends at once with an invalid-
/// configuration error, and nothing is ever submitted.
pub proof fn lemma_chain_mismatch_aborts(
    plan: PaymentPlan,
    from: Address,
    events: Seq<RpcEvent>,
    states: Seq<Engine>,
    actions: Seq<Action>,
    actual: u64,
)
    requires
        valid_history(Engine::CheckChainId { plan, from }, events, states, actions),
        events.len() >= 1,
        events[0] == RpcEvent::ChainId(actual),
        plan.chain_id is Some,
        actual != plan.chain_id->0,
    ensures
        (actions[0] matches Action::Finish(res) && (res matches Err(e)
            && e matches PayError::InvalidConfig(_))),
        forall|j: int| 0 <= j < actions.len() ==> !is_submit(#[trigger] actions[j]),
{
    lemma_history_step(Engine::CheckChainId { plan, from }, events, states, actions, 0);
    assert(steps_to(states[0], events[0], states[0int + 1], actions[0]));
    assert forall|j: int| 0 <= j < actions.len() implies !is_submit(#[trigger] actions[j]) by {
        lemma_history_step(Engine::CheckChainId { plan, from }, events, states, actions, j);
        lemma_step_facts(states[j], events[j], states[j + 1], actions[j]);
        if j > 0 {
            lemma_finished_propagates(
                Engine::CheckChainId { plan, from },
                events,
                states,
                actions,
                1,
                j,
            );
        }
    }
}

} // verus!

verus! {

/// The wallet path a payment uses: the caller's, when given, else the
/// configured path with its leading `~` expanded.
pub fn resolve_wallet_path(wallet_arg: Option<String>, config: &Config) -> (r: String)
    ensures
        wallet_arg matches Some(p) ==> r == p,
        wallet_arg is None && !crate::paths::has_tilde(config.wallet.path@) ==> r@
            == config.wallet.path@,
        wallet_arg is None && crate::paths::has_tilde(config.wallet.path@) ==> r@
            == config.wallet.path@ || exists|h: Seq<char>|
            r@ == h + config.wallet.path@.subrange(1, config.wallet.path@.len() as int),
{
    match wallet_arg {
        Some(p) => p,
        None => config.wallet_path(),
    }
}

} // verus!
