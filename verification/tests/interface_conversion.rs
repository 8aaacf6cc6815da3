use cache_builder::convert::{
    assemble, convert_constructor, convert_event_param, convert_fallback, convert_function,
    convert_param, convert_receive, selector_from_name, signature_of, state_mutability_to_string,
};
use cache_builder::decoded::{
    Constructor, ErrorItem, Event, EventParam, Function, Interface, InternalType, Param,
    StateMutability,
};
use cache_builder::types::{StorageSlot, ABI};

fn param(name: &str, ty: &str) -> Param {
    Param { name: name.to_string(), ty: ty.to_string(), internal_type: None }
}

fn function(name: &str, selector: [u8; 4]) -> Function {
    Function {
        name: name.to_string(),
        inputs: vec![param("to", "address"), param("amount", "uint256")],
        outputs: vec![param("", "bool")],
        state_mutability: StateMutability::NonPayable,
        selector,
    }
}

fn selector_entries(abi: &ABI) -> Vec<([u8; 4], usize)> {
    abi.by_selector.iter().map(|(k, v)| (*k, *v)).collect()
}

fn name_entries(abi: &ABI) -> Vec<(String, usize)> {
    abi.by_name.iter().map(|(k, v)| (k.clone(), *v)).collect()
}

#[test]
fn state_mutability_names() {
    assert_eq!(state_mutability_to_string(StateMutability::Pure), "pure");
    assert_eq!(state_mutability_to_string(StateMutability::View), "view");
    assert_eq!(state_mutability_to_string(StateMutability::NonPayable), "nonpayable");
    assert_eq!(state_mutability_to_string(StateMutability::Payable), "payable");
}

#[test]
fn internal_types_are_stored_by_kind() {
    let cases = [
        (Some(InternalType::AddressPayable), Some("address payable")),
        (Some(InternalType::Contract), Some("contract")),
        (Some(InternalType::Enum), Some("enum")),
        (Some(InternalType::Struct), Some("struct")),
        (Some(InternalType::Other { ty: "uint256".to_string() }), Some("uint256")),
        (None, None),
    ];
    for (internal_type, expected) in cases {
        let stored = convert_param(&Param {
            name: "x".to_string(),
            ty: "address".to_string(),
            internal_type,
        });
        assert_eq!(stored.name, "x");
        assert_eq!(stored.type_, "address");
        assert_eq!(stored.internal_type.as_deref(), expected);
    }
}

#[test]
fn event_param_keeps_the_indexed_flag() {
    let stored = convert_event_param(&EventParam {
        name: "from".to_string(),
        ty: "address".to_string(),
        indexed: true,
        internal_type: Some(InternalType::Contract),
    });
    assert_eq!(stored.name, "from");
    assert_eq!(stored.type_, "address");
    assert!(stored.indexed);
    assert_eq!(stored.internal_type.as_deref(), Some("contract"));
}

#[test]
fn signatures_join_the_types_with_commas() {
    assert_eq!(signature_of("f", &vec![]), "f()");
    assert_eq!(signature_of("f", &vec![param("a", "uint8")]), "f(uint8)");
    assert_eq!(
        signature_of("transfer", &vec![param("to", "address"), param("amount", "uint256")]),
        "transfer(address,uint256)"
    );
}

#[test]
fn selector_is_read_from_an_unresolved_name() {
    assert_eq!(selector_from_name("Unresolved_12345678"), Some([0x12, 0x34, 0x56, 0x78]));
    assert_eq!(selector_from_name("Unresolved_ABCDef12"), Some([0xab, 0xcd, 0xef, 0x12]));
    assert_eq!(selector_from_name("Unresolved_1234"), None);
    assert_eq!(selector_from_name("Unresolved_1234567890"), None);
    assert_eq!(selector_from_name("Unresolved_1234567g"), None);
    assert_eq!(selector_from_name("Unresolved_1234567"), None);
    assert_eq!(selector_from_name("unresolved_12345678"), None);
    assert_eq!(selector_from_name("transfer"), None);
    assert_eq!(selector_from_name(""), None);
}

#[test]
fn function_conversion_fills_every_field() {
    let stored = convert_function(&function("transfer", [0xa9, 0x05, 0x9c, 0xbb]));
    assert_eq!(stored.name, "transfer");
    assert_eq!(stored.inputs.len(), 2);
    assert_eq!(stored.inputs[1].name, "amount");
    assert_eq!(stored.outputs.len(), 1);
    assert_eq!(stored.input_types, vec!["address".to_string(), "uint256".to_string()]);
    assert_eq!(stored.output_types, vec!["bool".to_string()]);
    assert_eq!(stored.state_mutability, "nonpayable");
    assert!(!stored.constant);
    assert!(!stored.payable);
    assert_eq!(stored.selector, [0xa9, 0x05, 0x9c, 0xbb]);
    assert_eq!(stored.signature, "transfer(address,uint256)");
}

#[test]
fn unresolved_function_takes_the_selector_of_its_name() {
    let stored = convert_function(&function("Unresolved_deadbeef", [1, 2, 3, 4]));
    assert_eq!(stored.selector, [0xde, 0xad, 0xbe, 0xef]);
    assert_eq!(stored.signature, "Unresolved_deadbeef(address,uint256)");
    let stored = convert_function(&function("Unresolved_dead", [1, 2, 3, 4]));
    assert_eq!(stored.selector, [1, 2, 3, 4]);
}

#[test]
fn constant_and_payable_follow_the_state_mutability() {
    let mut f = function("f", [0; 4]);
    for (sm, constant, payable) in [
        (StateMutability::Pure, true, false),
        (StateMutability::View, true, false),
        (StateMutability::NonPayable, false, false),
        (StateMutability::Payable, false, true),
    ] {
        f.state_mutability = sm;
        let stored = convert_function(&f);
        assert_eq!(stored.constant, constant);
        assert_eq!(stored.payable, payable);
    }
}

#[test]
fn constructor_fallback_and_receive_entries() {
    let c = convert_constructor(&Constructor {
        inputs: vec![param("owner", "address")],
        state_mutability: StateMutability::Payable,
    });
    assert_eq!(c.name, "constructor");
    assert_eq!(c.signature, "constructor(address)");
    assert_eq!(c.input_types, vec!["address".to_string()]);
    assert!(c.outputs.is_empty());
    assert!(c.output_types.is_empty());
    assert_eq!(c.state_mutability, "payable");
    assert!(!c.constant);
    assert!(c.payable);
    assert_eq!(c.selector, [0; 4]);

    let f = convert_fallback(StateMutability::NonPayable);
    assert_eq!(f.name, "fallback");
    assert_eq!(f.signature, "fallback()");
    assert_eq!(f.state_mutability, "nonpayable");
    assert!(!f.payable);
    assert!(f.inputs.is_empty());
    assert_eq!(f.selector, [0; 4]);

    let r = convert_receive();
    assert_eq!(r.name, "receive");
    assert_eq!(r.signature, "receive()");
    assert_eq!(r.state_mutability, "payable");
    assert!(r.payable);
    assert!(!r.constant);
}

#[test]
fn empty_abi_holds_nothing() {
    let abi = ABI::new();
    assert!(abi.functions.is_empty());
    assert!(abi.events.is_empty());
    assert!(abi.errors.is_empty());
    assert!(abi.constructor.is_none());
    assert!(abi.fallback.is_none());
    assert!(abi.receive.is_none());
    assert!(abi.storage_layout.is_empty());
    assert!(abi.decompile_error.is_none());
    assert!(abi.storage_error.is_none());
    assert!(abi.by_selector.is_empty());
    assert!(abi.by_name.is_empty());
}

#[test]
fn indexes_follow_the_function_list() {
    let mut abi = ABI::new();
    abi.functions.push(convert_function(&function("a", [1, 0, 0, 0])));
    abi.functions.push(convert_function(&function("", [2, 0, 0, 0])));
    abi.functions.push(convert_function(&function("b", [1, 0, 0, 0])));
    abi.functions.push(convert_function(&function("a", [3, 0, 0, 0])));
    abi.rebuild_indices();
    // A repeated key keeps its first place and takes the last position.
    assert_eq!(
        selector_entries(&abi),
        vec![([1, 0, 0, 0], 2), ([2, 0, 0, 0], 1), ([3, 0, 0, 0], 3)]
    );
    // Functions without a name are not indexed by name.
    assert_eq!(name_entries(&abi), vec![("a".to_string(), 3), ("b".to_string(), 2)]);
    abi.functions.truncate(1);
    abi.rebuild_indices();
    assert_eq!(selector_entries(&abi), vec![([1, 0, 0, 0], 0)]);
    assert_eq!(name_entries(&abi), vec![("a".to_string(), 0)]);
    abi.functions.clear();
    abi.rebuild_indices();
    assert!(abi.by_selector.is_empty());
    assert!(abi.by_name.is_empty());
}

#[test]
fn assembled_abi_holds_the_interface_and_the_storage_phase() {
    let interface = Interface {
        functions: vec![
            function("transfer", [0xa9, 0x05, 0x9c, 0xbb]),
            function("Unresolved_01020304", [9, 9, 9, 9]),
        ],
        events: vec![Event {
            name: "Transfer".to_string(),
            inputs: vec![EventParam {
                name: "from".to_string(),
                ty: "address".to_string(),
                indexed: true,
                internal_type: None,
            }],
            anonymous: false,
        }],
        errors: vec![ErrorItem { name: "Broke".to_string(), inputs: vec![param("by", "uint8")] }],
        constructor: Some(Constructor { inputs: vec![], state_mutability: StateMutability::NonPayable }),
        fallback: Some(StateMutability::Payable),
        receive: true,
    };
    let slots = vec![StorageSlot::new(3, 4, "uint256".to_string())];
    let abi = assemble(&interface, slots, Some("partial".to_string()));
    assert_eq!(abi.functions.len(), 2);
    assert_eq!(abi.functions[1].selector, [1, 2, 3, 4]);
    assert_eq!(abi.events.len(), 1);
    assert_eq!(abi.events[0].name, "Transfer");
    assert!(abi.events[0].inputs[0].indexed);
    assert!(!abi.events[0].anonymous);
    assert_eq!(abi.errors.len(), 1);
    assert_eq!(abi.errors[0].name, "Broke");
    assert_eq!(abi.errors[0].inputs[0].type_, "uint8");
    assert_eq!(abi.constructor.as_ref().unwrap().signature, "constructor()");
    assert!(abi.fallback.as_ref().unwrap().payable);
    assert_eq!(abi.receive.as_ref().unwrap().name, "receive");
    assert_eq!(abi.storage_layout.len(), 1);
    assert_eq!(abi.storage_layout[0].index, 3);
    assert_eq!(abi.storage_layout[0].offset, 4);
    assert_eq!(abi.storage_layout[0].typ, "uint256");
    assert!(abi.decompile_error.is_none());
    assert_eq!(abi.storage_error.as_deref(), Some("partial"));
    assert_eq!(
        selector_entries(&abi),
        vec![([0xa9, 0x05, 0x9c, 0xbb], 0), ([1, 2, 3, 4], 1)]
    );
    assert_eq!(
        name_entries(&abi),
        vec![("transfer".to_string(), 0), ("Unresolved_01020304".to_string(), 1)]
    );
}

#[test]
fn assembled_abi_without_optional_parts() {
    let interface = Interface {
        functions: vec![],
        events: vec![],
        errors: vec![],
        constructor: None,
        fallback: None,
        receive: false,
    };
    let abi = assemble(&interface, vec![], None);
    assert!(abi.functions.is_empty());
    assert!(abi.constructor.is_none());
    assert!(abi.fallback.is_none());
    assert!(abi.receive.is_none());
    assert!(abi.storage_error.is_none());
    assert!(abi.by_selector.is_empty());
}
