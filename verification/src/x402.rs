//! The x402 flavor of the configuration: the same network and payment
//! settings, with wallet files kept under the `~/.x402` data directory.

use vstd::prelude::*;
use vstd::string::StringExecFns;
use crate::config::{NetworkConfig, PaymentConfig};
use crate::error::Error;
use crate::paths::{expand_tilde, has_tilde};
use crate::text::str_eq;

verus! {

/// The x402 data directory.
pub fn default_data_dir() -> (r: String)
    ensures
        r@ == "~/.x402"@,
{
    "~/.x402".to_owned()
}

/// The default wallet keystore path.
pub fn default_wallet_path() -> (r: String)
    ensures
        r@ == "~/.x402/wallet.json"@,
{
    "~/.x402/wallet.json".to_owned()
}

/// The default password file path.
pub fn default_password_path() -> (r: String)
    ensures
        r@ == "~/.x402/password.txt"@,
{
    "~/.x402/password.txt".to_owned()
}

/// The default configuration file path.
pub fn default_config_path() -> (r: String)
    ensures
        r@ == "~/.x402/config.toml"@,
{
    "~/.x402/config.toml".to_owned()
}

/// Where the wallet keystore and its password file live.
#[derive(Debug, Clone)]
pub struct WalletConfig {
    pub path: String,
    pub password_file: String,
}

impl Default for WalletConfig {
    fn default() -> (r: WalletConfig)
        ensures
            r.path@ == "~/.x402/wallet.json"@,
            r.password_file@ == "~/.x402/password.txt"@,
    {
        WalletConfig { path: default_wallet_path(), password_file: default_password_path() }
    }
}

/// The whole x402 configuration.
#[derive(Debug, Clone)]
pub struct Config {
    pub wallet: WalletConfig,
    pub network: NetworkConfig,
    pub payment: PaymentConfig,
}

impl Default for Config {
    fn default() -> (r: Config)
        ensures
            r.wallet.path@ == "~/.x402/wallet.json"@,
            r.wallet.password_file@ == "~/.x402/password.txt"@,
            r.network.name is None,
            r.network.chain_id is None,
            r.network.rpc_url is None,
            r.payment.default_token is None,
            r.payment.default_token_symbol is None,
            r.payment.default_token_decimals is None,
            r.payment.max_auto_payment is None,
    {
        Config {
            wallet: Default::default(),
            network: Default::default(),
            payment: Default::default(),
        }
    }
}

/// The network fields of `b` carry the profile, and everything the
/// profile does not define is kept from `a`.
pub open spec fn profile_network_applied(
    a: Config,
    b: Config,
    name: Seq<char>,
    chain_id: u64,
    rpc: Seq<char>,
) -> bool {
    &&& (b.network.name matches Some(n) && n@ == name)
    &&& b.network.chain_id == Some(chain_id)
    &&& (b.network.rpc_url matches Some(u) && u@ == rpc)
    &&& b.wallet == a.wallet
    &&& b.payment.max_auto_payment == a.payment.max_auto_payment
}

/// The payment fields of `b` carry the profile's token.
pub open spec fn profile_token_applied(
    b: Config,
    token: Seq<char>,
    symbol: Seq<char>,
    decimals: u8,
) -> bool {
    &&& (b.payment.default_token matches Some(t) && t@ == token)
    &&& (b.payment.default_token_symbol matches Some(s) && s@ == symbol)
    &&& b.payment.default_token_decimals == Some(decimals)
}

/// The payment fields of `b` are kept from `a`.
pub open spec fn payment_token_kept(a: Config, b: Config) -> bool {
    &&& b.payment.default_token == a.payment.default_token
    &&& b.payment.default_token_symbol == a.payment.default_token_symbol
    &&& b.payment.default_token_decimals == a.payment.default_token_decimals
}

impl Config {
    /// The wallet keystore path, with a leading `~` expanded.
    pub fn wallet_path(&self) -> (r: String)
        ensures
            !has_tilde(self.wallet.path@) ==> r@ == self.wallet.path@,
            has_tilde(self.wallet.path@) ==> r@ == self.wallet.path@ || exists|h: Seq<char>|
                r@ == h + self.wallet.path@.subrange(1, self.wallet.path@.len() as int),
    {
        expand_tilde(self.wallet.path.as_str())
    }

    /// The password file path, with a leading `~` expanded.
    pub fn password_path(&self) -> (r: String)
        ensures
            !has_tilde(self.wallet.password_file@) ==> r@ == self.wallet.password_file@,
            has_tilde(self.wallet.password_file@) ==> r@ == self.wallet.password_file@ || exists|
                h: Seq<char>,
            |
                r@ == h + self.wallet.password_file@.subrange(
                    1,
                    self.wallet.password_file@.len() as int,
                ),
    {
        expand_tilde(self.wallet.password_file.as_str())
    }

    /// Apply a predefined network profile: the fields the profile
    /// defines are overwritten, the rest are kept.
    pub fn apply_network_profile(&mut self, profile_name: &str) -> (r: Result<(), Error>)
        ensures
            profile_name@ == "base-sepolia"@ ==> r is Ok && profile_network_applied(
                *old(self),
                *final(self),
                "base-sepolia"@,
                84532,
                "https://sepolia.base.org"@,
            ) && profile_token_applied(
                *final(self),
                "0x036CbD53842c5426634e7929541eC2318f3dCF7e"@,
                "USDC"@,
                6,
            ),
            profile_name@ == "base-mainnet"@ ==> r is Ok && profile_network_applied(
                *old(self),
                *final(self),
                "base-mainnet"@,
                8453,
                "https://mainnet.base.org"@,
            ) && profile_token_applied(
                *final(self),
                "0x833589fCD6eDb6E08f4c7C32D4f71b54bdA02913"@,
                "USDC"@,
                6,
            ),
            profile_name@ == "ethereum-sepolia"@ ==> r is Ok && profile_network_applied(
                *old(self),
                *final(self),
                "ethereum-sepolia"@,
                11155111,
                "https://rpc.sepolia.org"@,
            ) && payment_token_kept(*old(self), *final(self)),
            profile_name@ == "ethereum-mainnet"@ ==> r is Ok && profile_network_applied(
                *old(self),
                *final(self),
                "ethereum-mainnet"@,
                1,
                "https://eth.llamarpc.com"@,
            ) && profile_token_applied(
                *final(self),
                "0xA0b86991c6218b36c1d19D4a2e9Eb0cE3606eB48"@,
                "USDC"@,
                6,
            ),
            !(profile_name@ == "base-sepolia"@ || profile_name@ == "base-mainnet"@
                || profile_name@ == "ethereum-sepolia"@ || profile_name@ == "ethereum-mainnet"@)
                ==> (r matches Err(e) && (e matches Error::Config(m) && m@
                == "Unknown network profile: "@ + profile_name@)) && *final(self) == *old(self),
    {
        proof {
            reveal_strlit("base-sepolia");
            reveal_strlit("base-mainnet");
            reveal_strlit("ethereum-sepolia");
            reveal_strlit("ethereum-mainnet");
            assert("base-sepolia"@.len() == 12);
            assert("base-mainnet"@.len() == 12);
            assert("ethereum-sepolia"@.len() == 16);
            assert("ethereum-mainnet"@.len() == 16);
            assert("base-sepolia"@[5] == 's');
            assert("base-mainnet"@[5] == 'm');
            assert("ethereum-sepolia"@[9] == 's');
            assert("ethereum-mainnet"@[9] == 'm');
        }
        if str_eq(profile_name, "base-sepolia") {
            self.network.name = Some("base-sepolia".to_owned());
            self.network.chain_id = Some(84532);
            self.network.rpc_url = Some("https://sepolia.base.org".to_owned());
            self.payment.default_token = Some(
                "0x036CbD53842c5426634e7929541eC2318f3dCF7e".to_owned(),
            );
            self.payment.default_token_symbol = Some("USDC".to_owned());
            self.payment.default_token_decimals = Some(6);
            Ok(())
        } else if str_eq(profile_name, "base-mainnet") {
            self.network.name = Some("base-mainnet".to_owned());
            self.network.chain_id = Some(8453);
            self.network.rpc_url = Some("https://mainnet.base.org".to_owned());
            self.payment.default_token = Some(
                "0x833589fCD6eDb6E08f4c7C32D4f71b54bdA02913".to_owned(),
            );
            self.payment.default_token_symbol = Some("USDC".to_owned());
            self.payment.default_token_decimals = Some(6);
            Ok(())
        } else if str_eq(profile_name, "ethereum-sepolia") {
            self.network.name = Some("ethereum-sepolia".to_owned());
            self.network.chain_id = Some(11155111);
            self.network.rpc_url = Some("https://rpc.sepolia.org".to_owned());
            Ok(())
        } else if str_eq(profile_name, "ethereum-mainnet") {
            self.network.name = Some("ethereum-mainnet".to_owned());
            self.network.chain_id = Some(1);
            self.network.rpc_url = Some("https://eth.llamarpc.com".to_owned());
            self.payment.default_token = Some(
                "0xA0b86991c6218b36c1d19D4a2e9Eb0cE3606eB48".to_owned(),
            );
            self.payment.default_token_symbol = Some("USDC".to_owned());
            self.payment.default_token_decimals = Some(6);
            Ok(())
        } else {
            Err(
                Error::Config(
                    String::from_str("Unknown network profile: ").concat(profile_name),
                ),
            )
        }
    }
}

} // verus!
