use abi_params::abi::ABIUnit;
use abi_params::abi::UnitType;
use abi_params::abi::Variable;
use abi_params::abi::ABI;
use abi_params::coerce::parse_params;
use abi_params::error::Error;
use abi_params::json::JsonNum;
use abi_params::json::JsonVal;
use abi_params::token::Token;

fn unit_with_inputs(inputs: Option<Vec<Variable>>) -> ABIUnit {
    ABIUnit {
        kind: UnitType::FUNCTION,
        name: None,
        anonymous: None,
        inputs,
        outputs: None,
        state_mutability: None,
    }
}

fn var(declared_type: &str) -> Variable {
    Variable {
        name: String::from("arg"),
        declared_type: String::from(declared_type),
        internal_type: String::from(declared_type),
    }
}

const MULTISIG_ABI: &str = r#"[ {  "inputs": [{ "internalType": "address[]", "name": "_owners", "type": "address[]"},{ "internalType": "uint256", "name": "_numConfirmRequired", "type": "uint256"},{ "internalType": "bool", "name": "_anyDepositAllowed", "type": "bool"}  ],  "stateMutability": "nonpayable",  "type": "constructor" }]"#;

#[test]
fn test_object_fails_even_with_matching_arity() {
    let abi = MULTISIG_ABI.parse::<ABI>().unwrap();
    let obj = JsonVal::Obj(vec![
        (String::from("_owners"), JsonVal::Arr(vec![])),
        (String::from("_numConfirmRequired"), JsonVal::Num(JsonNum::Uint(2))),
        (String::from("_anyDepositAllowed"), JsonVal::Bool(true)),
    ]);
    match abi.constructor.to_params(&obj) {
        Err(Error::InvalidParam(msg)) => assert_eq!(msg, "Map type unsupported"),
        other => panic!("expected InvalidParam, got {:?}", other),
    }
}

#[test]
fn test_uint256_unit_accepts_integer_42() {
    let unit = unit_with_inputs(Some(vec![var("uint256")]));
    let tokens = unit.to_params(&JsonVal::Num(JsonNum::Uint(42))).unwrap();
    assert_eq!(tokens, vec![Token::Uint64(42)]);
}

#[test]
fn test_address_of_wrong_length_fails() {
    let unit = unit_with_inputs(Some(vec![var("address")]));
    let short = JsonVal::Str(String::from("0x00000000000000000000000000000000000000"));
    match unit.to_params(&short) {
        Err(Error::AnyError(msg)) => {
            assert_eq!(msg, "invalid address: 0x00000000000000000000000000000000000000");
        },
        other => panic!("expected AnyError, got {:?}", other),
    }
}

#[test]
fn test_arity_mismatch_fails() {
    let unit = unit_with_inputs(Some(vec![var("bool"), var("bool")]));
    let one = JsonVal::Arr(vec![JsonVal::Bool(true)]);
    match unit.to_params(&one) {
        Err(Error::InvalidParam(msg)) => assert_eq!(msg, "params of abi parse failed"),
        other => panic!("expected InvalidParam, got {:?}", other),
    }
    let scalar = JsonVal::Bool(true);
    match unit.to_params(&scalar) {
        Err(Error::InvalidParam(msg)) => assert_eq!(msg, "params of abi parse failed"),
        other => panic!("expected InvalidParam, got {:?}", other),
    }
}

#[test]
fn test_fractional_number_fails() {
    let unit = unit_with_inputs(Some(vec![var("uint256")]));
    match unit.to_params(&JsonVal::Num(JsonNum::Float(String::from("1.5")))) {
        Err(Error::InvalidParam(msg)) => assert_eq!(msg, "f64 is not supported"),
        other => panic!("expected InvalidParam, got {:?}", other),
    }
    match unit.to_params(&JsonVal::Num(JsonNum::Int(-5))) {
        Err(Error::InvalidParam(msg)) => assert_eq!(msg, "f64 is not supported"),
        other => panic!("expected InvalidParam, got {:?}", other),
    }
}

#[test]
fn test_largest_u64_converts() {
    let unit = unit_with_inputs(Some(vec![var("uint256")]));
    let tokens = unit.to_params(&JsonVal::Num(JsonNum::Uint(u64::MAX))).unwrap();
    assert_eq!(tokens, vec![Token::Uint64(u64::MAX)]);
}

#[test]
fn test_map_with_declared_inputs_fails() {
    let unit = unit_with_inputs(Some(vec![var("bool")]));
    let obj = JsonVal::Obj(vec![(String::from("k"), JsonVal::Bool(true))]);
    match unit.to_params(&obj) {
        Err(Error::InvalidParam(msg)) => assert_eq!(msg, "Map type unsupported"),
        other => panic!("expected InvalidParam, got {:?}", other),
    }
}

#[test]
fn test_absent_inputs_ignore_value() {
    let unit = unit_with_inputs(None);
    let tokens = unit.to_params(&JsonVal::Num(JsonNum::Uint(7))).unwrap();
    assert!(tokens.is_empty());
}

#[test]
fn test_null_with_zero_inputs() {
    let unit = unit_with_inputs(Some(vec![]));
    let tokens = unit.to_params(&JsonVal::Null).unwrap();
    assert!(tokens.is_empty());
    let tokens = unit.to_params(&JsonVal::Arr(vec![])).unwrap();
    assert!(tokens.is_empty());
}

#[test]
fn test_bool_token() {
    let unit = unit_with_inputs(Some(vec![var("bool")]));
    let tokens = unit.to_params(&JsonVal::Bool(true)).unwrap();
    assert_eq!(tokens, vec![Token::Bool(true)]);
}

#[test]
fn test_address_string_converts() {
    let unit = unit_with_inputs(Some(vec![var("address")]));
    let addr = JsonVal::Str(String::from("0x00000000000000000000000000000000000000ff"));
    let tokens = unit.to_params(&addr).unwrap();
    match &tokens[0] {
        Token::Address(a) => {
            assert_eq!(a.bytes.len(), 20);
            assert_eq!(a.bytes[19], 0xff);
            assert_eq!(a.bytes[0], 0);
        },
        other => panic!("expected an address token, got {:?}", other),
    }
}

#[test]
fn test_uint256_string_converts() {
    let unit = unit_with_inputs(Some(vec![var("uint256")]));
    let value = JsonVal::Str(String::from("0x2a"));
    let tokens = unit.to_params(&value).unwrap();
    match &tokens[0] {
        Token::Uint256(u) => {
            assert_eq!(u.bytes.len(), 32);
            assert_eq!(u.bytes[31], 42);
            assert_eq!(u.bytes[0], 0);
        },
        other => panic!("expected a uint256 token, got {:?}", other),
    }
}

#[test]
fn test_unknown_declared_type_fails() {
    let unit = unit_with_inputs(Some(vec![var("bytes32")]));
    let value = JsonVal::Str(String::from("deadbeef"));
    match unit.to_params(&value) {
        Err(Error::InvalidParam(msg)) => {
            assert_eq!(msg, "convert deadbeef to type: bytes32 failed");
        },
        other => panic!("expected InvalidParam, got {:?}", other),
    }
}

#[test]
fn test_array_fills_inputs_positionally() {
    let abi = MULTISIG_ABI.parse::<ABI>().unwrap();
    let args = JsonVal::Arr(vec![
        JsonVal::Arr(vec![
            JsonVal::Str(String::from("0x0000000000000000000000000000000000000001")),
            JsonVal::Str(String::from("0x0000000000000000000000000000000000000002")),
        ]),
        JsonVal::Num(JsonNum::Uint(2)),
        JsonVal::Bool(false),
    ]);
    let tokens = abi.constructor.to_params(&args).unwrap();
    assert_eq!(tokens.len(), 3);
    match &tokens[0] {
        Token::Arr(owners) => {
            assert_eq!(owners.len(), 2);
            match &owners[1] {
                Token::Address(a) => assert_eq!(a.bytes[19], 2),
                other => panic!("expected an address token, got {:?}", other),
            }
        },
        other => panic!("expected an array token, got {:?}", other),
    }
    assert_eq!(tokens[1], Token::Uint64(2));
    assert_eq!(tokens[2], Token::Bool(false));
}

#[test]
fn test_array_element_null_fails() {
    let unit = unit_with_inputs(Some(vec![var("bool")]));
    let args = JsonVal::Arr(vec![JsonVal::Null]);
    match unit.to_params(&args) {
        Err(Error::InvalidParam(msg)) => {
            assert_eq!(msg, "Null and Map types are unsupported, data: null");
        },
        other => panic!("expected InvalidParam, got {:?}", other),
    }
}

#[test]
fn test_array_element_object_fails_naming_the_value() {
    let unit = unit_with_inputs(Some(vec![var("bool")]));
    let offending = JsonVal::Obj(vec![
        (String::from("a"), JsonVal::Num(JsonNum::Uint(1))),
        (String::from("n"), JsonVal::Num(JsonNum::Int(-5))),
        (String::from("f"), JsonVal::Num(JsonNum::Float(String::from("1.5")))),
        (String::from("q\""), JsonVal::Str(String::from("a\nb"))),
        (String::from("rest"), JsonVal::Arr(vec![JsonVal::Bool(true), JsonVal::Null])),
    ]);
    let args = JsonVal::Arr(vec![offending]);
    match unit.to_params(&args) {
        Err(Error::InvalidParam(msg)) => {
            assert_eq!(
                msg,
                "Null and Map types are unsupported, data: \
                 {\"a\":1,\"n\":-5,\"f\":1.5,\"q\\\"\":\"a\\nb\",\"rest\":[true,null]}",
            );
        },
        other => panic!("expected InvalidParam, got {:?}", other),
    }
}

#[test]
fn test_parse_params_resolves_function() {
    let s = r#"[
        {"type": "constructor"},
        {"type": "function", "name": "store", "inputs": [
            {"name": "value", "type": "uint256", "internalType": "uint256"}
        ]}
    ]"#;
    let tokens = parse_params(s, "store", &JsonVal::Num(JsonNum::Uint(7))).unwrap();
    assert_eq!(tokens, vec![Token::Uint64(7)]);
    match parse_params(s, "missing", &JsonVal::Null) {
        Err(Error::InvalidParam(msg)) => assert_eq!(msg, "function not found in abi"),
        other => panic!("expected InvalidParam, got {:?}", other),
    }
}
