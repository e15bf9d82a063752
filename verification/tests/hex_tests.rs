use abi_params::error::Error;
use abi_params::hex::parse_address;
use abi_params::hex::parse_uint256;
use abi_params::request::eth_to_wei;
use abi_params::request::parse_account;
use abi_params::request::prepare_raw_transaction;
use abi_params::request::prepare_transaction;
use abi_params::request::ContractRequest;
use abi_params::request::TxRequest;
use abi_params::response::wrap_outcome;
use abi_params::response::ResultInfo;

#[test]
fn test_address_round_trip() {
    let text = "0x00000000000000000000000000000000000000ff";
    let addr = parse_address(text).unwrap();
    assert_eq!(addr.bytes.len(), 20);
    let printed = addr.to_hex();
    assert_eq!(printed, "00000000000000000000000000000000000000ff");
    let again = parse_address(&printed).unwrap();
    assert_eq!(again, addr);
}

#[test]
fn test_address_accepts_mixed_case_and_no_prefix() {
    let a = parse_address("0xDEADBEEF00000000000000000000000000000000").unwrap();
    let b = parse_address("deadbeef00000000000000000000000000000000").unwrap();
    assert_eq!(a, b);
    assert_eq!(a.bytes[0], 0xde);
    assert_eq!(a.bytes[3], 0xef);
}

#[test]
fn test_address_rejects_bad_input() {
    assert!(parse_address("").is_none());
    assert!(parse_address("0x").is_none());
    assert!(parse_address("0x1234").is_none());
    assert!(parse_address("0x00000000000000000000000000000000000000zz").is_none());
    assert!(parse_address("0x00000000000000000000000000000000000000ff0").is_none());
}

#[test]
fn test_uint256_values() {
    let small = parse_uint256("0x2a").unwrap();
    assert_eq!(small.bytes.len(), 32);
    assert_eq!(small.bytes[31], 0x2a);
    assert!(small.bytes[..31].iter().all(|b| *b == 0));
    assert_eq!(
        small.to_hex(),
        "000000000000000000000000000000000000000000000000000000000000002a"
    );

    let max = parse_uint256(&"f".repeat(64)).unwrap();
    assert!(max.bytes.iter().all(|b| *b == 0xff));
    assert!(parse_uint256(&"f".repeat(65)).is_none());
    let prefixed = parse_uint256(&format!("0x{}", "f".repeat(64))).unwrap();
    assert_eq!(prefixed, max);
}

#[test]
fn test_uint256_round_trip() {
    let v = parse_uint256("0x0123456789abcdef").unwrap();
    let printed = v.to_hex();
    assert_eq!(printed.len(), 64);
    let again = parse_uint256(&printed).unwrap();
    assert_eq!(again, v);
}

#[test]
fn test_uint256_rejects_bad_input() {
    assert!(parse_uint256("").is_none());
    assert!(parse_uint256("0x").is_none());
    assert!(parse_uint256("xyz").is_none());
    // 65 digits are too many; 64 parse
    assert!(parse_uint256(&format!("1{}", "0".repeat(64))).is_none());
    assert!(parse_uint256(&format!("1{}", "0".repeat(63))).is_some());
}

#[test]
fn test_eth_to_wei() {
    assert_eq!(eth_to_wei(0), 0);
    assert_eq!(eth_to_wei(1), 1_000_000_000_000_000_000);
    assert_eq!(eth_to_wei(u64::MAX), (u64::MAX as u128) * 1_000_000_000_000_000_000);
}

#[test]
fn test_prepare_transaction() {
    let req = TxRequest {
        from: String::from("0x0000000000000000000000000000000000000001"),
        to: String::from("0x0000000000000000000000000000000000000002"),
        value: 3,
        gas: Some(21000),
        nonce: None,
        secret_key: None,
    };
    let plan = prepare_transaction(&req).unwrap();
    assert_eq!(plan.from.bytes[19], 1);
    assert_eq!(plan.to.bytes[19], 2);
    assert_eq!(plan.value_wei, 3_000_000_000_000_000_000);
    assert_eq!(plan.gas, Some(21000));
    assert_eq!(plan.nonce, None);

    let bad = TxRequest { from: String::from("nonsense"), ..req };
    match prepare_transaction(&bad) {
        Err(Error::InvalidParam(msg)) => assert_eq!(msg, "nonsense"),
        other => panic!("expected InvalidParam, got {:?}", other),
    }
}

#[test]
fn test_prepare_raw_transaction() {
    let req = TxRequest {
        from: String::new(),
        to: String::from("0x0000000000000000000000000000000000000002"),
        value: 1,
        gas: None,
        nonce: None,
        secret_key: None,
    };
    match prepare_raw_transaction(&req) {
        Err(Error::InvalidParam(msg)) => assert_eq!(msg, "No secret key found."),
        other => panic!("expected InvalidParam, got {:?}", other),
    }
    let with_key = TxRequest { secret_key: Some(String::from("SECRET-REDACTED")), ..req };
    let plan = prepare_raw_transaction(&with_key).unwrap();
    assert_eq!(plan.to.bytes[19], 2);
    assert_eq!(plan.value_wei, 1_000_000_000_000_000_000);
    assert_eq!(plan.secret_key, "SECRET-REDACTED");
}

#[test]
fn test_contract_request_validation() {
    let req = ContractRequest {
        address: String::from("0x00000000000000000000000000000000000000aa"),
        from: String::from("0x00000000000000000000000000000000000000bb"),
        params: 7u64,
    };
    let (from, address) = req.validate_addresses().unwrap();
    assert_eq!(from.bytes[19], 0xbb);
    assert_eq!(address.bytes[19], 0xaa);
    let target = req.validate_target().unwrap();
    assert_eq!(target, address);

    let bad = ContractRequest { address: String::from("oops"), ..req };
    match bad.validate_target() {
        Err(Error::InvalidParam(msg)) => assert_eq!(msg, "oops"),
        other => panic!("expected InvalidParam, got {:?}", other),
    }
}

#[test]
fn test_parse_account() {
    let ok = parse_account("0x0000000000000000000000000000000000000005").unwrap();
    assert_eq!(ok.bytes[19], 5);
    match parse_account("bogus") {
        Err(Error::InvalidParam(msg)) => assert_eq!(msg, "account: bogus parse failed"),
        other => panic!("expected InvalidParam, got {:?}", other),
    }
}

#[test]
fn test_result_info_and_error_message() {
    let info = ResultInfo::new(200, String::from("OK"), vec![1u8, 2u8]);
    assert_eq!(info.code, 200);
    assert_eq!(info.msg, "OK");
    assert_eq!(info.data, vec![1u8, 2u8]);
    let err = Error::InvalidParam(String::from("boom"));
    assert_eq!(err.message(), "boom");
}

#[test]
fn test_wrap_outcome() {
    let ok = wrap_outcome(Ok(7u64), 0u64);
    assert_eq!(ok.code, 200);
    assert_eq!(ok.msg, "OK");
    assert_eq!(ok.data, 7);
    let failed = wrap_outcome(Err(Error::InvalidParam(String::from("bad"))), 0u64);
    assert_eq!(failed.code, 500);
    assert_eq!(failed.msg, "Internal Server Error");
    assert_eq!(failed.data, 0);
}
