use x402_payment::abi::parse_address;
use x402_payment::config::Config;
use x402_payment::engine::{
    plan_payment, resolve_wallet_path, start, on_event, Action, Engine, PayArgs, PayError,
    PaymentPlan, RpcEvent,
};

fn configured() -> Config {
    let mut c = Config::default();
    c.apply_network_profile("base-sepolia").unwrap();
    c
}

fn args() -> PayArgs {
    PayArgs {
        to: "0x2222222222222222222222222222222222222222".to_string(),
        amount: "1".to_string(),
        token: None,
        rpc: None,
        wallet_path: "/tmp/wallet.json".to_string(),
        wallet_exists: true,
        password: Some("pw".to_string()),
        password_file: None,
        config_password_file: None,
        chain_id: None,
        gas_price_gwei: None,
        no_wait: false,
    }
}

const FROM: &str = "0x1111111111111111111111111111111111111111";

fn plan(a: PayArgs, c: &Config) -> PaymentPlan {
    plan_payment(a, c).unwrap()
}

#[test]
fn address_parsing() {
    assert!(parse_address("0x2222222222222222222222222222222222222222").is_some());
    assert!(parse_address("2222222222222222222222222222222222222222").is_some());
    let a = parse_address("0x036CbD53842c5426634e7929541eC2318f3dCF7e").unwrap();
    assert_eq!(a.to_string_0x(), "0x036cbd53842c5426634e7929541ec2318f3dcf7e");
    assert!(parse_address("0x22").is_none());
    assert!(parse_address("0xZZ22222222222222222222222222222222222222").is_none());
    assert!(parse_address("").is_none());
}

#[test]
fn planning_fails_fast_in_order() {
    // incomplete network configuration comes first
    let e = plan_payment(args(), &Config::default()).unwrap_err();
    assert!(matches!(e, PayError::MissingConfig(_)));
    assert_eq!(e.exit_code(), 10);

    // then a missing wallet
    let c = configured();
    let mut a = args();
    a.wallet_exists = false;
    a.password = None;
    let e = plan_payment(a, &c).unwrap_err();
    assert!(matches!(e, PayError::WalletNotFound(_)));
    assert_eq!(e.exit_code(), 12);

    // then a missing password
    let mut a = args();
    a.password = None;
    let e = plan_payment(a, &c).unwrap_err();
    assert!(matches!(e, PayError::InvalidArgument(_)));
    assert_eq!(e.exit_code(), 20);

    // then a malformed recipient
    let mut a = args();
    a.to = "not-an-address".to_string();
    let e = plan_payment(a, &c).unwrap_err();
    assert_eq!(e.message(), "Invalid argument: Invalid recipient address: not-an-address");

    // then a malformed amount, before any decryption or network work
    let mut a = args();
    a.amount = "5.5.5".to_string();
    let e = plan_payment(a, &c).unwrap_err();
    assert_eq!(e.message(), "Invalid argument: Invalid amount: 5.5.5");

    // then a malformed token address
    let mut a = args();
    a.token = Some("0x12".to_string());
    let e = plan_payment(a, &c).unwrap_err();
    assert_eq!(e.message(), "Invalid argument: Invalid token address: 0x12");
}

#[test]
fn planning_resolves_fields() {
    let c = configured();
    // base-sepolia configures USDC at six decimals, so "1" is one USDC
    let p = plan(args(), &c);
    assert_eq!(p.rpc_url, "https://sepolia.base.org");
    assert_eq!(p.chain_id, Some(84532));
    assert_eq!(p.amount.to_decimal_string(), "1000000");
    // the configured default token is used when none is named
    assert!(p.token.is_some());
    assert!(p.gas_override_wei.is_none());

    // a caller's chain id and gas price win over the configuration
    let mut a = args();
    a.chain_id = Some(7);
    a.gas_price_gwei = Some("1.5".to_string());
    a.token = Some("0x3333333333333333333333333333333333333333".to_string());
    let p = plan(a, &c);
    assert_eq!(p.chain_id, Some(7));
    assert_eq!(p.gas_override_wei.unwrap().to_decimal_string(), "1500000000");
    assert_eq!(p.token.unwrap().to_string_0x(), "0x3333333333333333333333333333333333333333");
}

#[test]
fn wallet_path_resolution() {
    let c = configured();
    assert_eq!(resolve_wallet_path(Some("/a/b.json".to_string()), &c), "/a/b.json");
    let r = resolve_wallet_path(None, &c);
    assert!(r.ends_with("wallet.json"));
}

#[test]
fn chain_id_mismatch_aborts_before_anything_is_built() {
    let c = configured();
    let from = parse_address(FROM).unwrap();
    let (engine, action) = start(plan(args(), &c), from);
    assert!(matches!(action, Action::FetchChainId));
    // the live network reports another chain
    let (engine, action) = on_event(engine, RpcEvent::ChainId(1));
    assert!(matches!(engine, Engine::Finished));
    match action {
        Action::Finish(Err(e)) => {
            assert!(matches!(e, PayError::InvalidConfig(_)));
            assert_eq!(
                e.message(),
                "Invalid configuration: Chain ID mismatch: expected 84532, got 1"
            );
            assert_eq!(e.exit_code(), 11);
        }
        other => panic!("expected a finish, got {other:?}"),
    }
}

#[test]
fn insufficient_balance_never_submits() {
    let c = configured();
    let mut a = args();
    a.token = None;
    let mut p = plan(a, &c);
    p.token = None; // force a native transfer despite the configured default
    let from = parse_address(FROM).unwrap();
    let mut submits = 0;
    let (engine, action) = start(p, from);
    assert!(matches!(action, Action::FetchChainId));
    let (engine, action) = on_event(engine, RpcEvent::ChainId(84532));
    assert!(matches!(action, Action::FetchGasPrice));
    let (engine, action) = on_event(engine, RpcEvent::GasPrice(2_000_000_000));
    assert!(matches!(action, Action::FetchNativeBalance { .. }));
    // the balance covers neither the amount nor the gas
    let (engine, action) = on_event(engine, RpcEvent::Balance("1".to_string()));
    if matches!(action, Action::SubmitNative { .. } | Action::SubmitToken { .. }) {
        submits += 1;
    }
    assert_eq!(submits, 0);
    assert!(matches!(engine, Engine::Finished));
    match action {
        Action::Finish(Err(e)) => {
            assert!(matches!(e, PayError::InsufficientBalance(_)));
            assert_eq!(e.exit_code(), 1);
        }
        other => panic!("expected a finish, got {other:?}"),
    }
}

#[test]
fn native_balance_must_cover_amount_plus_gas() {
    let c = configured();
    let mut p = plan(args(), &c);
    p.token = None;
    p.chain_id = None;
    p.gas_override_wei =
        Some(x402_payment::amount::human_to_raw("2", 9).unwrap()); // 2 Gwei
    let from = parse_address(FROM).unwrap();
    // required: 1_000_000 + 21000 * 2_000_000_000 = 42_000_001_000_000
    let (engine, action) = start(p, from);
    assert!(matches!(action, Action::FetchNativeBalance { .. }));
    let (_, action) = on_event(engine, RpcEvent::Balance("42000000999999".to_string()));
    assert!(matches!(action, Action::Finish(Err(PayError::InsufficientBalance(_)))));

    let c = configured();
    let mut p = plan(args(), &c);
    p.token = None;
    p.chain_id = None;
    p.gas_override_wei = Some(x402_payment::amount::human_to_raw("2", 9).unwrap());
    let from = parse_address(FROM).unwrap();
    let (engine, _) = start(p, from);
    let (_, action) = on_event(engine, RpcEvent::Balance("42000001000000".to_string()));
    match action {
        Action::SubmitNative { to, amount, gas_price_wei } => {
            assert_eq!(to.to_string_0x(), "0x2222222222222222222222222222222222222222");
            assert_eq!(amount.to_decimal_string(), "1000000");
            assert_eq!(gas_price_wei.to_u128(), Some(2_000_000_000));
        }
        other => panic!("expected a native submission, got {other:?}"),
    }
}

#[test]
fn token_transfer_frames_the_expected_calldata() {
    let c = configured();
    let a = args();
    let p = plan(a, &c); // token: the configured USDC address
    let from = parse_address(FROM).unwrap();
    let (engine, action) = start(p, from);
    assert!(matches!(action, Action::FetchChainId));
    let (engine, action) = on_event(engine, RpcEvent::ChainId(84532));
    assert!(matches!(action, Action::FetchGasPrice));
    let (engine, action) = on_event(engine, RpcEvent::GasPrice(1_000_000_000));
    match &action {
        Action::FetchTokenBalance { token, calldata } => {
            assert_eq!(token.to_string_0x(), "0x036cbd53842c5426634e7929541ec2318f3dcf7e");
            // balanceOf(from)
            let mut expected = vec![0x70, 0xa0, 0x82, 0x31];
            expected.extend_from_slice(&[0u8; 12]);
            expected.extend_from_slice(&[0x11u8; 20]);
            assert_eq!(calldata, &expected);
        }
        other => panic!("expected a token balance query, got {other:?}"),
    }
    // a token balance only has to cover the amount itself
    let (engine, action) = on_event(engine, RpcEvent::Balance("1000000".to_string()));
    match &action {
        Action::SubmitToken { token, calldata, gas_price_wei } => {
            assert_eq!(token.to_string_0x(), "0x036cbd53842c5426634e7929541ec2318f3dcf7e");
            assert_eq!(gas_price_wei.to_u128(), Some(1_000_000_000));
            // transfer(to, 1_000_000)
            let mut expected = vec![0xa9, 0x05, 0x9c, 0xbb];
            expected.extend_from_slice(&[0u8; 12]);
            expected.extend_from_slice(&[0x22u8; 20]);
            let mut amount_word = vec![0u8; 32];
            amount_word[29] = 0x0F;
            amount_word[30] = 0x42;
            amount_word[31] = 0x40;
            expected.extend_from_slice(&amount_word);
            assert_eq!(calldata, &expected);
        }
        other => panic!("expected a token submission, got {other:?}"),
    }
    // submission and confirmation
    let (engine, action) = on_event(engine, RpcEvent::Submitted("0xfeedbead".to_string()));
    assert!(matches!(action, Action::PollReceipt));
    let (engine, action) = on_event(engine, RpcEvent::Receipt { success: true });
    assert!(matches!(engine, Engine::Finished));
    match action {
        Action::Finish(Ok(h)) => assert_eq!(h, "0xfeedbead"),
        other => panic!("expected success, got {other:?}"),
    }
}

#[test]
fn end_to_end_native_transfer_with_mocked_rpc() {
    // create a wallet with an explicit password, derive a plan, and run
    // the engine against a mocked network that accepts the transfer
    let c = configured();
    let (password, must_save) =
        x402_payment::wallet::Wallet::resolve_create_password(Some("test_password".to_string()));
    assert_eq!(password, "test_password");
    assert!(!must_save);

    let mut a = args();
    a.password = Some(password);
    let mut p = plan(a, &c);
    p.token = None;
    let from = parse_address(FROM).unwrap();

    let (engine, action) = start(p, from);
    assert!(matches!(action, Action::FetchChainId));
    let (engine, action) = on_event(engine, RpcEvent::ChainId(84532));
    assert!(matches!(action, Action::FetchGasPrice));
    let (engine, action) = on_event(engine, RpcEvent::GasPrice(1_000_000_000));
    assert!(matches!(action, Action::FetchNativeBalance { .. }));
    let (engine, action) =
        on_event(engine, RpcEvent::Balance("999999999999999999".to_string()));
    assert!(matches!(action, Action::SubmitNative { .. }));
    let (engine, action) = on_event(engine, RpcEvent::Submitted("0xabc123".to_string()));
    assert!(matches!(action, Action::PollReceipt));
    let (engine, action) = on_event(engine, RpcEvent::Receipt { success: true });
    assert!(matches!(engine, Engine::Finished));
    match action {
        Action::Finish(r) => assert_eq!(r.unwrap(), "0xabc123"),
        other => panic!("expected the mocked hash, got {other:?}"),
    }
}

#[test]
fn reverted_transactions_are_distinguished() {
    let c = configured();
    let mut p = plan(args(), &c);
    p.token = None;
    p.chain_id = None;
    let from = parse_address(FROM).unwrap();
    let (engine, _) = start(p, from);
    let (engine, _) = on_event(engine, RpcEvent::GasPrice(1));
    let (engine, _) = on_event(engine, RpcEvent::Balance("99999999999999".to_string()));
    let (engine, _) = on_event(engine, RpcEvent::Submitted("0xabc".to_string()));
    let (_, action) = on_event(engine, RpcEvent::Receipt { success: false });
    match action {
        Action::Finish(Err(e)) => {
            assert_eq!(e.message(), "Transaction failed: Transaction reverted");
            assert_eq!(e.exit_code(), 2);
        }
        other => panic!("expected a revert, got {other:?}"),
    }
}

#[test]
fn no_wait_returns_right_after_submission() {
    let c = configured();
    let mut a = args();
    a.no_wait = true;
    let mut p = plan(a, &c);
    p.token = None;
    p.chain_id = None;
    let from = parse_address(FROM).unwrap();
    let (engine, _) = start(p, from);
    let (engine, _) = on_event(engine, RpcEvent::GasPrice(1));
    let (engine, _) = on_event(engine, RpcEvent::Balance("99999999999999".to_string()));
    let (engine, action) = on_event(engine, RpcEvent::Submitted("0xabc".to_string()));
    assert!(matches!(engine, Engine::Finished));
    assert!(matches!(action, Action::Finish(Ok(_))));
}

#[test]
fn network_failures_map_to_network_errors() {
    let c = configured();
    let p = plan(args(), &c);
    let from = parse_address(FROM).unwrap();
    let (engine, _) = start(p, from);
    let (_, action) = on_event(engine, RpcEvent::Failed("timeout".to_string()));
    match action {
        Action::Finish(Err(e)) => {
            assert_eq!(e.message(), "Network error: Failed to get chain ID: timeout");
            assert_eq!(e.exit_code(), 3);
        }
        other => panic!("expected a network error, got {other:?}"),
    }
}
