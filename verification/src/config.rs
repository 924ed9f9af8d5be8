//! Configuration of the payment tools: wallet location, network
//! settings, and payment defaults, with key-based access, named network
//! profiles, and a completeness check for payment operations.
//!
//! Reading and writing the configuration file is input/output and lives
//! outside the library; this module holds every decision made on the
//! configuration values themselves.

use vstd::prelude::*;
use vstd::string::StringExecFns;
use crate::amount::{all_digits, chars_of_digits, digit_vals, val};
use crate::error::Error;
use crate::paths::{expand_tilde, has_tilde};
use crate::text::{dec_digits, parse_u64, parse_u8, str_eq, u64_to_string};

verus! {

/// Where the wallet keystore and its password file live.
#[derive(Debug, Clone)]
pub struct WalletConfig {
    pub path: String,
    pub password_file: String,
}

/// Which network payments are made against.
#[derive(Debug, Clone)]
pub struct NetworkConfig {
    pub name: Option<String>,
    pub chain_id: Option<u64>,
    pub rpc_url: Option<String>,
}

/// Defaults applied to payments.
#[derive(Debug, Clone)]
pub struct PaymentConfig {
    pub default_token: Option<String>,
    pub default_token_symbol: Option<String>,
    pub default_token_decimals: Option<u8>,
    pub max_auto_payment: Option<String>,
}

/// The whole configuration.
#[derive(Debug, Clone)]
pub struct Config {
    pub wallet: WalletConfig,
    pub network: NetworkConfig,
    pub payment: PaymentConfig,
}

/// The default wallet keystore path.
pub fn default_wallet_path_string() -> (r: String)
    ensures
        r@ == "~/.payment/wallet.json"@,
{
    "~/.payment/wallet.json".to_owned()
}

/// The default password file path.
pub fn default_password_path_string() -> (r: String)
    ensures
        r@ == "~/.payment/password.txt"@,
{
    "~/.payment/password.txt".to_owned()
}

/// The default wallet keystore path.
pub fn default_wallet_path() -> (r: String)
    ensures
        r@ == "~/.payment/wallet.json"@,
{
    default_wallet_path_string()
}

/// The default password file path.
pub fn default_password_path() -> (r: String)
    ensures
        r@ == "~/.payment/password.txt"@,
{
    default_password_path_string()
}

/// The default configuration file path.
pub fn default_config_path() -> (r: String)
    ensures
        r@ == "~/.payment/config.toml"@,
{
    "~/.payment/config.toml".to_owned()
}

impl Default for WalletConfig {
    fn default() -> (r: WalletConfig)
        ensures
            r.path@ == "~/.payment/wallet.json"@,
            r.password_file@ == "~/.payment/password.txt"@,
    {
        WalletConfig { path: default_wallet_path_string(), password_file: default_password_path_string() }
    }
}

impl Default for NetworkConfig {
    fn default() -> (r: NetworkConfig)
        ensures
            r.name is None,
            r.chain_id is None,
            r.rpc_url is None,
    {
        NetworkConfig { name: None, chain_id: None, rpc_url: None }
    }
}

impl Default for PaymentConfig {
    fn default() -> (r: PaymentConfig)
        ensures
            r.default_token is None,
            r.default_token_symbol is None,
            r.default_token_decimals is None,
            r.max_auto_payment is None,
    {
        PaymentConfig {
            default_token: None,
            default_token_symbol: None,
            default_token_decimals: None,
            max_auto_payment: None,
        }
    }
}

impl Default for Config {
    fn default() -> (r: Config)
        ensures
            r.wallet.path@ == "~/.payment/wallet.json"@,
            r.wallet.password_file@ == "~/.payment/password.txt"@,
            r.network.name is None,
            r.network.chain_id is None,
            r.network.rpc_url is None,
            r.payment.default_token is None,
            r.payment.default_token_symbol is None,
            r.payment.default_token_decimals is None,
            r.payment.max_auto_payment is None,
    {
        Config {
            wallet: Default::default(),
            network: Default::default(),
            payment: Default::default(),
        }
    }
}

/// The view of an optional string.
pub open spec fn view_opt(o: Option<String>) -> Option<Seq<char>> {
    match o {
        Some(s) => Some(s@),
        None => None,
    }
}

/// A key is one of the nine configuration keys.
pub open spec fn is_config_key(key: Seq<char>) -> bool {
    ||| key == "wallet.path"@
    ||| key == "wallet.password_file"@
    ||| key == "network.name"@
    ||| key == "network.chain_id"@
    ||| key == "network.rpc_url"@
    ||| key == "payment.default_token"@
    ||| key == "payment.default_token_symbol"@
    ||| key == "payment.default_token_decimals"@
    ||| key == "payment.max_auto_payment"@
}

impl Config {
    /// The wallet keystore path, with a leading `~` expanded.
    pub fn wallet_path(&self) -> (r: String)
        ensures
            !has_tilde(self.wallet.path@) ==> r@ == self.wallet.path@,
            has_tilde(self.wallet.path@) ==> r@ == self.wallet.path@ || exists|h: Seq<char>|
                r@ == h + self.wallet.path@.subrange(1, self.wallet.path@.len() as int),
    {
        expand_tilde(self.wallet.path.as_str())
    }

    /// The password file path, with a leading `~` expanded.
    pub fn password_path(&self) -> (r: String)
        ensures
            !has_tilde(self.wallet.password_file@) ==> r@ == self.wallet.password_file@,
            has_tilde(self.wallet.password_file@) ==> r@ == self.wallet.password_file@ || exists|
                h: Seq<char>,
            |
                r@ == h + self.wallet.password_file@.subrange(
                    1,
                    self.wallet.password_file@.len() as int,
                ),
    {
        expand_tilde(self.wallet.password_file.as_str())
    }

    /// Look a configuration value up by its key path.
    pub fn get(&self, key: &str) -> (r: Option<String>)
        ensures
            key@ == "wallet.path"@ ==> (r matches Some(v) && v@ == self.wallet.path@),
            key@ == "wallet.password_file"@ ==> (r matches Some(v) && v@
                == self.wallet.password_file@),
            key@ == "network.name"@ ==> view_opt(r) == view_opt(self.network.name),
            key@ == "network.chain_id"@ ==> (match self.network.chain_id {
                Some(v) => r matches Some(t) && t@ == chars_of_digits(dec_digits(v as nat)),
                None => r is None,
            }),
            key@ == "network.rpc_url"@ ==> view_opt(r) == view_opt(self.network.rpc_url),
            key@ == "payment.default_token"@ ==> view_opt(r) == view_opt(
                self.payment.default_token,
            ),
            key@ == "payment.default_token_symbol"@ ==> view_opt(r) == view_opt(
                self.payment.default_token_symbol,
            ),
            key@ == "payment.default_token_decimals"@ ==> (match self.payment.default_token_decimals {
                Some(v) => r matches Some(t) && t@ == chars_of_digits(dec_digits(v as nat)),
                None => r is None,
            }),
            key@ == "payment.max_auto_payment"@ ==> view_opt(r) == view_opt(
                self.payment.max_auto_payment,
            ),
            !is_config_key(key@) ==> r is None,
    {
        proof {
            reveal_strlit("wallet.path");
            reveal_strlit("wallet.password_file");
            reveal_strlit("network.name");
            reveal_strlit("network.chain_id");
            reveal_strlit("network.rpc_url");
            reveal_strlit("payment.default_token");
            reveal_strlit("payment.default_token_symbol");
            reveal_strlit("payment.default_token_decimals");
            reveal_strlit("payment.max_auto_payment");
            assert("wallet.path"@.len() == 11);
            assert("wallet.password_file"@.len() == 20);
            assert("network.name"@.len() == 12);
            assert("network.chain_id"@.len() == 16);
            assert("network.rpc_url"@.len() == 15);
            assert("payment.default_token"@.len() == 21);
            assert("payment.default_token_symbol"@.len() == 28);
            assert("payment.default_token_decimals"@.len() == 30);
            assert("payment.max_auto_payment"@.len() == 24);
        }
        if str_eq(key, "wallet.path") {
            Some(self.wallet.path.clone())
        } else if str_eq(key, "wallet.password_file") {
            Some(self.wallet.password_file.clone())
        } else if str_eq(key, "network.name") {
            match &self.network.name {
                Some(s) => Some(s.clone()),
                None => None,
            }
        } else if str_eq(key, "network.chain_id") {
            match self.network.chain_id {
                Some(v) => Some(u64_to_string(v)),
                None => None,
            }
        } else if str_eq(key, "network.rpc_url") {
            match &self.network.rpc_url {
                Some(s) => Some(s.clone()),
                None => None,
            }
        } else if str_eq(key, "payment.default_token") {
            match &self.payment.default_token {
                Some(s) => Some(s.clone()),
                None => None,
            }
        } else if str_eq(key, "payment.default_token_symbol") {
            match &self.payment.default_token_symbol {
                Some(s) => Some(s.clone()),
                None => None,
            }
        } else if str_eq(key, "payment.default_token_decimals") {
            match self.payment.default_token_decimals {
                Some(v) => Some(u64_to_string(v as u64)),
                None => None,
            }
        } else if str_eq(key, "payment.max_auto_payment") {
            match &self.payment.max_auto_payment {
                Some(s) => Some(s.clone()),
                None => None,
            }
        } else {
            None
        }
    }

    /// The list of valid configuration keys.
    pub fn valid_keys() -> (r: Vec<String>)
        ensures
            r@.len() == 9,
            r@[0]@ == "wallet.path"@,
            r@[1]@ == "wallet.password_file"@,
            r@[2]@ == "network.name"@,
            r@[3]@ == "network.chain_id"@,
            r@[4]@ == "network.rpc_url"@,
            r@[5]@ == "payment.default_token"@,
            r@[6]@ == "payment.default_token_symbol"@,
            r@[7]@ == "payment.default_token_decimals"@,
            r@[8]@ == "payment.max_auto_payment"@,
    {
        let mut r: Vec<String> = Vec::new();
        r.push("wallet.path".to_owned());
        r.push("wallet.password_file".to_owned());
        r.push("network.name".to_owned());
        r.push("network.chain_id".to_owned());
        r.push("network.rpc_url".to_owned());
        r.push("payment.default_token".to_owned());
        r.push("payment.default_token_symbol".to_owned());
        r.push("payment.default_token_decimals".to_owned());
        r.push("payment.max_auto_payment".to_owned());
        r
    }
}

} // verus!

verus! {

/// A structured prompt reported when the configuration is too
/// incomplete for payment operations.
#[derive(Debug, Clone)]
pub struct MissingConfigPrompt {
    pub error: String,
    pub missing_fields: Vec<String>,
    pub prompt: String,
    pub questions: Vec<ConfigQuestion>,
    pub hint: String,
}

/// One question of a missing-configuration prompt.
#[derive(Debug, Clone)]
pub struct ConfigQuestion {
    pub field: String,
    pub question: String,
    pub examples: Vec<String>,
    pub default: Option<String>,
}

/// A named bundle of network settings.
#[derive(Debug, Clone)]
pub struct NetworkProfile {
    pub name: String,
    pub chain_id: u64,
    pub rpc_url: String,
    pub default_token: Option<String>,
    pub default_token_symbol: Option<String>,
    pub default_token_decimals: Option<u8>,
}

/// `value` parses as a chain id.
pub open spec fn parses_u64(value: Seq<char>) -> bool {
    value.len() > 0 && all_digits(value) && val(digit_vals(value)) < 0x1_0000_0000_0000_0000
}

/// `value` parses as a token decimal count.
pub open spec fn parses_u8(value: Seq<char>) -> bool {
    value.len() > 0 && all_digits(value) && val(digit_vals(value)) < 256
}

/// The network fields of `b` carry the profile, and everything the
/// profile does not define is kept from `a`.
pub open spec fn profile_network_applied(
    a: Config,
    b: Config,
    name: Seq<char>,
    chain_id: u64,
    rpc: Seq<char>,
) -> bool {
    &&& (b.network.name matches Some(n) && n@ == name)
    &&& b.network.chain_id == Some(chain_id)
    &&& (b.network.rpc_url matches Some(u) && u@ == rpc)
    &&& b.wallet == a.wallet
    &&& b.payment.max_auto_payment == a.payment.max_auto_payment
}

/// The payment fields of `b` carry the profile's token.
pub open spec fn profile_token_applied(b: Config, token: Seq<char>, symbol: Seq<char>, decimals: u8) -> bool {
    &&& (b.payment.default_token matches Some(t) && t@ == token)
    &&& (b.payment.default_token_symbol matches Some(s) && s@ == symbol)
    &&& b.payment.default_token_decimals == Some(decimals)
}

/// The payment fields of `b` are kept from `a`.
pub open spec fn payment_token_kept(a: Config, b: Config) -> bool {
    &&& b.payment.default_token == a.payment.default_token
    &&& b.payment.default_token_symbol == a.payment.default_token_symbol
    &&& b.payment.default_token_decimals == a.payment.default_token_decimals
}

/// The predefined network profiles.
pub fn network_profiles() -> (r: Vec<NetworkProfile>)
    ensures
        r@.len() == 4,
        r@[0].name@ == "base-sepolia"@ && r@[0].chain_id == 84532 && r@[0].rpc_url@
            == "https://sepolia.base.org"@,
        (r@[0].default_token matches Some(t) && t@
            == "0x036CbD53842c5426634e7929541eC2318f3dCF7e"@),
        (r@[0].default_token_symbol matches Some(s) && s@ == "USDC"@),
        r@[0].default_token_decimals == Some(6u8),
        r@[1].name@ == "base-mainnet"@ && r@[1].chain_id == 8453 && r@[1].rpc_url@
            == "https://mainnet.base.org"@,
        (r@[1].default_token matches Some(t) && t@
            == "0x833589fCD6eDb6E08f4c7C32D4f71b54bdA02913"@),
        (r@[1].default_token_symbol matches Some(s) && s@ == "USDC"@),
        r@[1].default_token_decimals == Some(6u8),
        r@[2].name@ == "ethereum-sepolia"@ && r@[2].chain_id == 11155111 && r@[2].rpc_url@
            == "https://rpc.sepolia.org"@,
        r@[2].default_token is None && r@[2].default_token_symbol is None
            && r@[2].default_token_decimals is None,
        r@[3].name@ == "ethereum-mainnet"@ && r@[3].chain_id == 1 && r@[3].rpc_url@
            == "https://eth.llamarpc.com"@,
        (r@[3].default_token matches Some(t) && t@
            == "0xA0b86991c6218b36c1d19D4a2e9Eb0cE3606eB48"@),
        (r@[3].default_token_symbol matches Some(s) && s@ == "USDC"@),
        r@[3].default_token_decimals == Some(6u8),
{
    let mut r: Vec<NetworkProfile> = Vec::new();
    r.push(
        NetworkProfile {
            name: "base-sepolia".to_owned(),
            chain_id: 84532,
            rpc_url: "https://sepolia.base.org".to_owned(),
            default_token: Some("0x036CbD53842c5426634e7929541eC2318f3dCF7e".to_owned()),
            default_token_symbol: Some("USDC".to_owned()),
            default_token_decimals: Some(6),
        },
    );
    r.push(
        NetworkProfile {
            name: "base-mainnet".to_owned(),
            chain_id: 8453,
            rpc_url: "https://mainnet.base.org".to_owned(),
            default_token: Some("0x833589fCD6eDb6E08f4c7C32D4f71b54bdA02913".to_owned()),
            default_token_symbol: Some("USDC".to_owned()),
            default_token_decimals: Some(6),
        },
    );
    r.push(
        NetworkProfile {
            name: "ethereum-sepolia".to_owned(),
            chain_id: 11155111,
            rpc_url: "https://rpc.sepolia.org".to_owned(),
            default_token: None,
            default_token_symbol: None,
            default_token_decimals: None,
        },
    );
    r.push(
        NetworkProfile {
            name: "ethereum-mainnet".to_owned(),
            chain_id: 1,
            rpc_url: "https://eth.llamarpc.com".to_owned(),
            default_token: Some("0xA0b86991c6218b36c1d19D4a2e9Eb0cE3606eB48".to_owned()),
            default_token_symbol: Some("USDC".to_owned()),
            default_token_decimals: Some(6),
        },
    );
    r
}

/// The result is a configuration error carrying `prefix` + `rest`.
pub open spec fn bad_value(r: Result<(), Error>, prefix: Seq<char>, rest: Seq<char>) -> bool {
    r matches Err(e) && (e matches Error::Config(m) && m@ == prefix + rest)
}

/// `b` is `a` with `wallet.path` set to `v`.
pub open spec fn sets_wallet_path(a: Config, b: Config, v: Seq<char>) -> bool {
    &&& b.wallet.path@ == v
    &&& b.wallet.password_file == a.wallet.password_file
    &&& b.network == a.network
    &&& b.payment == a.payment
}

/// `b` is `a` with `wallet.password_file` set to `v`.
pub open spec fn sets_password_file(a: Config, b: Config, v: Seq<char>) -> bool {
    &&& b.wallet.password_file@ == v
    &&& b.wallet.path == a.wallet.path
    &&& b.network == a.network
    &&& b.payment == a.payment
}

/// `b` is `a` with `network.name` set to `v`.
pub open spec fn sets_network_name(a: Config, b: Config, v: Seq<char>) -> bool {
    &&& (b.network.name matches Some(n) && n@ == v)
    &&& b.network.chain_id == a.network.chain_id
    &&& b.network.rpc_url == a.network.rpc_url
    &&& b.wallet == a.wallet
    &&& b.payment == a.payment
}

/// `b` is `a` with `network.chain_id` set to the value `v` denotes.
pub open spec fn sets_chain_id(a: Config, b: Config, v: Seq<char>) -> bool {
    &&& b.network.chain_id == Some(val(digit_vals(v)) as u64)
    &&& b.network.name == a.network.name
    &&& b.network.rpc_url == a.network.rpc_url
    &&& b.wallet == a.wallet
    &&& b.payment == a.payment
}

/// `b` is `a` with `network.rpc_url` set to `v`.
pub open spec fn sets_rpc_url(a: Config, b: Config, v: Seq<char>) -> bool {
    &&& (b.network.rpc_url matches Some(u) && u@ == v)
    &&& b.network.name == a.network.name
    &&& b.network.chain_id == a.network.chain_id
    &&& b.wallet == a.wallet
    &&& b.payment == a.payment
}

/// `b` is `a` with `payment.default_token` set to `v`.
pub open spec fn sets_default_token(a: Config, b: Config, v: Seq<char>) -> bool {
    &&& (b.payment.default_token matches Some(t) && t@ == v)
    &&& b.payment.default_token_symbol == a.payment.default_token_symbol
    &&& b.payment.default_token_decimals == a.payment.default_token_decimals
    &&& b.payment.max_auto_payment == a.payment.max_auto_payment
    &&& b.wallet == a.wallet
    &&& b.network == a.network
}

/// `b` is `a` with `payment.default_token_symbol` set to `v`.
pub open spec fn sets_token_symbol(a: Config, b: Config, v: Seq<char>) -> bool {
    &&& (b.payment.default_token_symbol matches Some(t) && t@ == v)
    &&& b.payment.default_token == a.payment.default_token
    &&& b.payment.default_token_decimals == a.payment.default_token_decimals
    &&& b.payment.max_auto_payment == a.payment.max_auto_payment
    &&& b.wallet == a.wallet
    &&& b.network == a.network
}

/// `b` is `a` with `payment.default_token_decimals` set to the value `v` denotes.
pub open spec fn sets_token_decimals(a: Config, b: Config, v: Seq<char>) -> bool {
    &&& b.payment.default_token_decimals == Some(val(digit_vals(v)) as u8)
    &&& b.payment.default_token == a.payment.default_token
    &&& b.payment.default_token_symbol == a.payment.default_token_symbol
    &&& b.payment.max_auto_payment == a.payment.max_auto_payment
    &&& b.wallet == a.wallet
    &&& b.network == a.network
}

/// `b` is `a` with `payment.max_auto_payment` set to `v`.
pub open spec fn sets_max_auto_payment(a: Config, b: Config, v: Seq<char>) -> bool {
    &&& (b.payment.max_auto_payment matches Some(t) && t@ == v)
    &&& b.payment.default_token == a.payment.default_token
    &&& b.payment.default_token_symbol == a.payment.default_token_symbol
    &&& b.payment.default_token_decimals == a.payment.default_token_decimals
    &&& b.wallet == a.wallet
    &&& b.network == a.network
}

impl Config {
    /// Set a configuration value by its key path.
    pub fn set(&mut self, key: &str, value: &str) -> (r: Result<(), Error>)
        ensures
            key@ == "wallet.path"@ ==> r is Ok && sets_wallet_path(*old(self), *final(self), value@),
            key@ == "wallet.password_file"@ ==> r is Ok && sets_password_file(*old(self), *final(self), value@),
            key@ == "network.name"@ ==> r is Ok && sets_network_name(*old(self), *final(self), value@),
            key@ == "network.chain_id"@ && parses_u64(value@) ==> r is Ok && sets_chain_id(*old(self), *final(self), value@),
            key@ == "network.chain_id"@ && !parses_u64(value@) ==> bad_value(r, "Invalid chain_id: "@, value@) && *final(self) == *old(self),
            key@ == "network.rpc_url"@ ==> r is Ok && sets_rpc_url(*old(self), *final(self), value@),
            key@ == "payment.default_token"@ ==> r is Ok && sets_default_token(*old(self), *final(self), value@),
            key@ == "payment.default_token_symbol"@ ==> r is Ok && sets_token_symbol(*old(self), *final(self), value@),
            key@ == "payment.default_token_decimals"@ && parses_u8(value@) ==> r is Ok && sets_token_decimals(*old(self), *final(self), value@),
            key@ == "payment.default_token_decimals"@ && !parses_u8(value@) ==> bad_value(r, "Invalid decimals: "@, value@) && *final(self) == *old(self),
            key@ == "payment.max_auto_payment"@ ==> r is Ok && sets_max_auto_payment(*old(self), *final(self), value@),
            !is_config_key(key@) ==> bad_value(r, "Unknown config key: "@, key@) && *final(self) == *old(self),
    {
        proof {
            reveal_strlit("wallet.path");
            reveal_strlit("wallet.password_file");
            reveal_strlit("network.name");
            reveal_strlit("network.chain_id");
            reveal_strlit("network.rpc_url");
            reveal_strlit("payment.default_token");
            reveal_strlit("payment.default_token_symbol");
            reveal_strlit("payment.default_token_decimals");
            reveal_strlit("payment.max_auto_payment");
            assert("wallet.path"@.len() == 11);
            assert("wallet.password_file"@.len() == 20);
            assert("network.name"@.len() == 12);
            assert("network.chain_id"@.len() == 16);
            assert("network.rpc_url"@.len() == 15);
            assert("payment.default_token"@.len() == 21);
            assert("payment.default_token_symbol"@.len() == 28);
            assert("payment.default_token_decimals"@.len() == 30);
            assert("payment.max_auto_payment"@.len() == 24);
        }
        if str_eq(key, "wallet.path") {
            self.wallet.path = value.to_owned();
            Ok(())
        } else if str_eq(key, "wallet.password_file") {
            self.wallet.password_file = value.to_owned();
            Ok(())
        } else if str_eq(key, "network.name") {
            self.network.name = Some(value.to_owned());
            Ok(())
        } else if str_eq(key, "network.chain_id") {
            match parse_u64(value) {
                Some(v) => {
                    self.network.chain_id = Some(v);
                    Ok(())
                },
                None => Err(
                    Error::Config(String::from_str("Invalid chain_id: ").concat(value)),
                ),
            }
        } else if str_eq(key, "network.rpc_url") {
            self.network.rpc_url = Some(value.to_owned());
            Ok(())
        } else if str_eq(key, "payment.default_token") {
            self.payment.default_token = Some(value.to_owned());
            Ok(())
        } else if str_eq(key, "payment.default_token_symbol") {
            self.payment.default_token_symbol = Some(value.to_owned());
            Ok(())
        } else if str_eq(key, "payment.default_token_decimals") {
            match parse_u8(value) {
                Some(v) => {
                    self.payment.default_token_decimals = Some(v);
                    Ok(())
                },
                None => Err(
                    Error::Config(String::from_str("Invalid decimals: ").concat(value)),
                ),
            }
        } else if str_eq(key, "payment.max_auto_payment") {
            self.payment.max_auto_payment = Some(value.to_owned());
            Ok(())
        } else {
            Err(Error::Config(String::from_str("Unknown config key: ").concat(key)))
        }
    }

    /// Apply a predefined network profile: the fields the profile
    /// defines are overwritten, the rest are kept.
    pub fn apply_network_profile(&mut self, profile_name: &str) -> (r: Result<(), Error>)
        ensures
            profile_name@ == "base-sepolia"@ ==> r is Ok && profile_network_applied(
                *old(self),
                *final(self),
                "base-sepolia"@,
                84532,
                "https://sepolia.base.org"@,
            ) && profile_token_applied(
                *final(self),
                "0x036CbD53842c5426634e7929541eC2318f3dCF7e"@,
                "USDC"@,
                6,
            ),
            profile_name@ == "base-mainnet"@ ==> r is Ok && profile_network_applied(
                *old(self),
                *final(self),
                "base-mainnet"@,
                8453,
                "https://mainnet.base.org"@,
            ) && profile_token_applied(
                *final(self),
                "0x833589fCD6eDb6E08f4c7C32D4f71b54bdA02913"@,
                "USDC"@,
                6,
            ),
            profile_name@ == "ethereum-sepolia"@ ==> r is Ok && profile_network_applied(
                *old(self),
                *final(self),
                "ethereum-sepolia"@,
                11155111,
                "https://rpc.sepolia.org"@,
            ) && payment_token_kept(*old(self), *final(self)),
            profile_name@ == "ethereum-mainnet"@ ==> r is Ok && profile_network_applied(
                *old(self),
                *final(self),
                "ethereum-mainnet"@,
                1,
                "https://eth.llamarpc.com"@,
            ) && profile_token_applied(
                *final(self),
                "0xA0b86991c6218b36c1d19D4a2e9Eb0cE3606eB48"@,
                "USDC"@,
                6,
            ),
            !(profile_name@ == "base-sepolia"@ || profile_name@ == "base-mainnet"@
                || profile_name@ == "ethereum-sepolia"@ || profile_name@ == "ethereum-mainnet"@)
                ==> (r matches Err(e) && (e matches Error::Config(m) && m@
                == "Unknown network profile: "@ + profile_name@)) && *final(self) == *old(self),
    {
        proof {
            reveal_strlit("base-sepolia");
            reveal_strlit("base-mainnet");
            reveal_strlit("ethereum-sepolia");
            reveal_strlit("ethereum-mainnet");
            assert("base-sepolia"@.len() == 12);
            assert("base-mainnet"@.len() == 12);
            assert("ethereum-sepolia"@.len() == 16);
            assert("ethereum-mainnet"@.len() == 16);
            assert("base-sepolia"@[5] == 's');
            assert("base-mainnet"@[5] == 'm');
            assert("ethereum-sepolia"@[9] == 's');
            assert("ethereum-mainnet"@[9] == 'm');
        }
        if str_eq(profile_name, "base-sepolia") {
            self.network.name = Some("base-sepolia".to_owned());
            self.network.chain_id = Some(84532);
            self.network.rpc_url = Some("https://sepolia.base.org".to_owned());
            self.payment.default_token = Some(
                "0x036CbD53842c5426634e7929541eC2318f3dCF7e".to_owned(),
            );
            self.payment.default_token_symbol = Some("USDC".to_owned());
            self.payment.default_token_decimals = Some(6);
            Ok(())
        } else if str_eq(profile_name, "base-mainnet") {
            self.network.name = Some("base-mainnet".to_owned());
            self.network.chain_id = Some(8453);
            self.network.rpc_url = Some("https://mainnet.base.org".to_owned());
            self.payment.default_token = Some(
                "0x833589fCD6eDb6E08f4c7C32D4f71b54bdA02913".to_owned(),
            );
            self.payment.default_token_symbol = Some("USDC".to_owned());
            self.payment.default_token_decimals = Some(6);
            Ok(())
        } else if str_eq(profile_name, "ethereum-sepolia") {
            self.network.name = Some("ethereum-sepolia".to_owned());
            self.network.chain_id = Some(11155111);
            self.network.rpc_url = Some("https://rpc.sepolia.org".to_owned());
            Ok(())
        } else if str_eq(profile_name, "ethereum-mainnet") {
            self.network.name = Some("ethereum-mainnet".to_owned());
            self.network.chain_id = Some(1);
            self.network.rpc_url = Some("https://eth.llamarpc.com".to_owned());
            self.payment.default_token = Some(
                "0xA0b86991c6218b36c1d19D4a2e9Eb0cE3606eB48".to_owned(),
            );
            self.payment.default_token_symbol = Some("USDC".to_owned());
            self.payment.default_token_decimals = Some(6);
            Ok(())
        } else {
            Err(
                Error::Config(
                    String::from_str("Unknown network profile: ").concat(profile_name),
                ),
            )
        }
    }

    /// Check that the configuration is complete enough for payments:
    /// an RPC endpoint and a chain id must both be present. When they
    /// are not, a structured prompt names the missing fields.
    pub fn check_network_config(&self) -> (r: Result<(), MissingConfigPrompt>)
        ensures
            r is Ok <==> self.network.rpc_url is Some && self.network.chain_id is Some,
            r matches Err(p) ==> {
                &&& p.error@ == "missing_config"@
                &&& p.missing_fields@.len() == (if self.network.rpc_url is None
                    && self.network.chain_id is None {
                    2int
                } else {
                    1int
                })
                &&& (self.network.rpc_url is None ==> p.missing_fields@[0]@ == "network.rpc_url"@)
                &&& (self.network.rpc_url is None && self.network.chain_id is None
                    ==> p.missing_fields@[1]@ == "network.chain_id"@)
                &&& (self.network.rpc_url is Some && self.network.chain_id is None
                    ==> p.missing_fields@[0]@ == "network.chain_id"@)
                &&& p.prompt@
                    == "Configuration is incomplete. Please configure the network settings."@
                &&& p.questions@.len() == 1
                &&& p.questions@[0].field@ == "network"@
                &&& p.questions@[0].question@
                    == "Which blockchain network should be used for payments?"@
                &&& p.questions@[0].examples@.len() == 3
                &&& p.questions@[0].examples@[0]@ == "base-sepolia"@
                &&& p.questions@[0].examples@[1]@ == "base-mainnet"@
                &&& p.questions@[0].examples@[2]@ == "ethereum-mainnet"@
                &&& (p.questions@[0].default matches Some(dv) && dv@ == "base-sepolia"@)
                &&& p.hint@ == "Run: payment-config use-network <network-name>"@
            },
    {
        let mut missing_fields: Vec<String> = Vec::new();
        if self.network.rpc_url.is_none() {
            missing_fields.push("network.rpc_url".to_owned());
        }
        if self.network.chain_id.is_none() {
            missing_fields.push("network.chain_id".to_owned());
        }
        if missing_fields.len() == 0 {
            Ok(())
        } else {
            let mut examples: Vec<String> = Vec::new();
            examples.push("base-sepolia".to_owned());
            examples.push("base-mainnet".to_owned());
            examples.push("ethereum-mainnet".to_owned());
            let mut questions: Vec<ConfigQuestion> = Vec::new();
            questions.push(
                ConfigQuestion {
                    field: "network".to_owned(),
                    question: "Which blockchain network should be used for payments?".to_owned(),
                    examples,
                    default: Some("base-sepolia".to_owned()),
                },
            );
            Err(
                MissingConfigPrompt {
                    error: "missing_config".to_owned(),
                    missing_fields,
                    prompt:
                        "Configuration is incomplete. Please configure the network settings.".to_owned(),
                    questions,
                    hint: "Run: payment-config use-network <network-name>".to_owned(),
                },
            )
        }
    }
}

} // verus!
