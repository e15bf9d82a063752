use abi_params::abi::UnitType;
use abi_params::abi::ABI;
use abi_params::error::Error;

#[test]
fn test_create_abi() {
    let s = r#"[ {  "inputs": [{ "internalType": "address[]", "name": "_owners", "type": "address[]"},{ "internalType": "uint256", "name": "_numConfirmRequired", "type": "uint256"},{ "internalType": "bool", "name": "_anyDepositAllowed", "type": "bool"}  ],  "stateMutability": "nonpayable",  "type": "constructor" }]"#;
    let abi = s.parse::<ABI>();
    println!("{:?}", abi.unwrap());
}

#[test]
fn test_missing_constructor() {
    let s = r#"[{"type": "function", "name": "store"}]"#;
    let abi = s.parse::<ABI>();
    match abi {
        Err(Error::ABIParseError(msg)) => assert_eq!(msg, "constructor not found"),
        other => panic!("expected ABIParseError, got {:?}", other),
    }
}

#[test]
fn test_empty_document_missing_constructor() {
    let abi = "[]".parse::<ABI>();
    match abi {
        Err(Error::ABIParseError(msg)) => assert_eq!(msg, "constructor not found"),
        other => panic!("expected ABIParseError, got {:?}", other),
    }
}

#[test]
fn test_malformed_document() {
    let abi = "this is not json".parse::<ABI>();
    assert!(matches!(abi, Err(Error::ABIParseError(_))));
    let abi = r#"{"type": "constructor"}"#.parse::<ABI>();
    match abi {
        Err(Error::ABIParseError(msg)) => assert_eq!(msg, "abi document is not an array"),
        other => panic!("expected ABIParseError, got {:?}", other),
    }
    let abi = r#"[17]"#.parse::<ABI>();
    match abi {
        Err(Error::ABIParseError(msg)) => assert_eq!(msg, "abi unit is not an object"),
        other => panic!("expected ABIParseError, got {:?}", other),
    }
    let abi = r#"[1.5]"#.parse::<ABI>();
    match abi {
        Err(Error::ABIParseError(msg)) => assert_eq!(msg, "abi unit is not an object"),
        other => panic!("expected ABIParseError, got {:?}", other),
    }
    let abi = r#"[{"name": "f"}]"#.parse::<ABI>();
    match abi {
        Err(Error::ABIParseError(msg)) => assert_eq!(msg, "missing abi unit type"),
        other => panic!("expected ABIParseError, got {:?}", other),
    }
    let abi = r#"[{"type": "contraption"}]"#.parse::<ABI>();
    match abi {
        Err(Error::ABIParseError(msg)) => assert_eq!(msg, "unknown abi unit type"),
        other => panic!("expected ABIParseError, got {:?}", other),
    }
    let abi = r#"[{"type": 17}]"#.parse::<ABI>();
    match abi {
        Err(Error::ABIParseError(msg)) => assert_eq!(msg, "invalid abi unit field: type"),
        other => panic!("expected ABIParseError, got {:?}", other),
    }
    let abi = r#"[{"type": "constructor", "name": 17}]"#.parse::<ABI>();
    match abi {
        Err(Error::ABIParseError(msg)) => assert_eq!(msg, "invalid abi unit field: name"),
        other => panic!("expected ABIParseError, got {:?}", other),
    }
}

#[test]
fn test_function_mapping_keeps_distinct_names() {
    let s = r#"[
        {"type": "constructor", "inputs": []},
        {"type": "function", "name": "store", "stateMutability": "nonpayable"},
        {"type": "function", "name": "retrieve", "stateMutability": "view"},
        {"type": "event", "name": "Stored"}
    ]"#;
    let abi = s.parse::<ABI>().unwrap();
    assert_eq!(abi.function.len(), 2);
    assert_eq!(abi.constructor.kind, UnitType::CONSTRUCTOR);
    assert!(abi.get_function("store").is_some());
    assert!(abi.get_function("retrieve").is_some());
    assert!(abi.get_function("Stored").is_none());
    assert!(abi.get_function("absent").is_none());
}

#[test]
fn test_first_definition_wins() {
    let s = r#"[
        {"type": "constructor"},
        {"type": "function", "name": "store", "stateMutability": "first"},
        {"type": "function", "name": "store", "stateMutability": "second"}
    ]"#;
    let abi = s.parse::<ABI>().unwrap();
    assert_eq!(abi.function.len(), 1);
    let unit = abi.get_function("store").unwrap();
    assert_eq!(unit.state_mutability.as_deref(), Some("first"));
}

#[test]
fn test_first_constructor_is_kept() {
    let s = r#"[
        {"type": "function", "name": "f"},
        {"type": "constructor", "stateMutability": "one"},
        {"type": "constructor", "stateMutability": "two"}
    ]"#;
    let abi = s.parse::<ABI>().unwrap();
    assert_eq!(abi.constructor.state_mutability.as_deref(), Some("one"));
}

#[test]
fn test_kind_is_case_insensitive() {
    let s = r#"[
        {"type": "Constructor"},
        {"type": "FUNCTION", "name": "f"},
        {"type": "Event", "name": "E"}
    ]"#;
    let abi = s.parse::<ABI>().unwrap();
    assert_eq!(abi.constructor.kind, UnitType::CONSTRUCTOR);
    assert_eq!(abi.function.len(), 1);
    assert_eq!(abi.get_function("f").unwrap().kind, UnitType::FUNCTION);
}

#[test]
fn test_unit_without_name_indexed_under_empty_string() {
    let s = r#"[
        {"type": "constructor"},
        {"type": "function", "stateMutability": "view"}
    ]"#;
    let abi = s.parse::<ABI>().unwrap();
    assert_eq!(abi.function.len(), 1);
    assert!(abi.get_function("").is_some());
}

#[test]
fn test_variable_fields_are_required() {
    let s = r#"[
        {"type": "constructor", "inputs": [{"name": "_a", "type": "bool"}]}
    ]"#;
    let abi = s.parse::<ABI>();
    match abi {
        Err(Error::ABIParseError(msg)) => assert_eq!(msg, "invalid abi variable"),
        other => panic!("expected ABIParseError, got {:?}", other),
    }
}

#[test]
fn test_parsed_variables() {
    let s = r#"[ {  "inputs": [{ "internalType": "address[]", "name": "_owners", "type": "address[]"},{ "internalType": "uint256", "name": "_numConfirmRequired", "type": "uint256"},{ "internalType": "bool", "name": "_anyDepositAllowed", "type": "bool"}  ],  "stateMutability": "nonpayable",  "type": "constructor" }]"#;
    let abi = s.parse::<ABI>().unwrap();
    let inputs = abi.constructor.inputs.as_ref().unwrap();
    assert_eq!(inputs.len(), 3);
    assert_eq!(inputs[0].name, "_owners");
    assert_eq!(inputs[0].declared_type, "address[]");
    assert_eq!(inputs[1].internal_type, "uint256");
    assert_eq!(abi.constructor.state_mutability.as_deref(), Some("nonpayable"));
}
