//! From a decoded interface to the stored result.

use vstd::prelude::*;
use vstd::string::*;
use vstd::utf8::encode_utf8;
use crate::decoded::{Constructor, ErrorItem, Event, EventParam, Function, Interface, InternalType, Param, StateMutability};
use crate::encoding::{decode, hex_bytes, is_hex};
use crate::text::{is_prefix_of, lemma_equal_by_last, starts_with};
use crate::types::{build_indices, name_index, selector_index, ABIError, ABIEvent, ABIEventParam, ABIFunction, ABIParam, AbiModel, ErrorModel, EventModel, EventParamModel, FunctionModel, ParamModel, SlotModel, StorageSlot, ABI};

verus! {

/// The name under which a state mutability is stored.
pub open spec fn state_mutability_text(state_mutability: StateMutability) -> Seq<char> {
    match state_mutability {
        StateMutability::Pure => "pure"@,
        StateMutability::View => "view"@,
        StateMutability::NonPayable => "nonpayable"@,
        StateMutability::Payable => "payable"@,
    }
}

/// The name under which a state mutability is stored.
pub fn state_mutability_to_string(state_mutability: StateMutability) -> (name: String)
    ensures
        name@ == state_mutability_text(state_mutability),
{
    match state_mutability {
        StateMutability::Pure => String::from_str("pure"),
        StateMutability::View => String::from_str("view"),
        StateMutability::NonPayable => String::from_str("nonpayable"),
        StateMutability::Payable => String::from_str("payable"),
    }
}

/// The text that is stored for an internal type: a fixed word for the four
/// known kinds, the type's name for any other.
pub open spec fn internal_type_text(internal_type: InternalType) -> Seq<char> {
    match internal_type {
        InternalType::AddressPayable => "address payable"@,
        InternalType::Contract => "contract"@,
        InternalType::Enum => "enum"@,
        InternalType::Struct => "struct"@,
        InternalType::Other { ty } => ty@,
    }
}

/// The stored text of an optional internal type.
pub open spec fn internal_type_of(internal_type: Option<InternalType>) -> Option<Seq<char>> {
    match internal_type {
        Some(it) => Some(internal_type_text(it)),
        None => None,
    }
}

fn convert_internal_type(internal_type: &Option<InternalType>) -> (text: Option<String>)
    ensures
        crate::types::text_of(text) == internal_type_of(*internal_type),
{
    match internal_type {
        None => None,
        Some(InternalType::AddressPayable) => Some(String::from_str("address payable")),
        Some(InternalType::Contract) => Some(String::from_str("contract")),
        Some(InternalType::Enum) => Some(String::from_str("enum")),
        Some(InternalType::Struct) => Some(String::from_str("struct")),
        Some(InternalType::Other { ty }) => Some(ty.clone()),
    }
}

/// The stored form of a parameter.
pub open spec fn converted_param(param: Param) -> ParamModel {
    ParamModel {
        name: param.name@,
        type_: param.ty@,
        internal_type: internal_type_of(param.internal_type),
    }
}

/// The stored form of an event parameter.
pub open spec fn converted_event_param(param: EventParam) -> EventParamModel {
    EventParamModel {
        name: param.name@,
        type_: param.ty@,
        indexed: param.indexed,
        internal_type: internal_type_of(param.internal_type),
    }
}

/// The stored forms of a list of parameters.
pub open spec fn converted_params(params: Seq<Param>) -> Seq<ParamModel> {
    params.map_values(|p: Param| converted_param(p))
}

/// The stored forms of a list of event parameters.
pub open spec fn converted_event_params(params: Seq<EventParam>) -> Seq<EventParamModel> {
    params.map_values(|p: EventParam| converted_event_param(p))
}

/// The types of a list of parameters.
pub open spec fn param_types(params: Seq<Param>) -> Seq<Seq<char>> {
    params.map_values(|p: Param| p.ty@)
}

/// Converts one parameter.
pub fn convert_param(param: &Param) -> (stored: ABIParam)
    ensures
        stored@ == converted_param(*param),
{
    ABIParam {
        name: param.name.clone(),
        type_: param.ty.clone(),
        internal_type: convert_internal_type(&param.internal_type),
    }
}

/// Converts one event parameter.
pub fn convert_event_param(param: &EventParam) -> (stored: ABIEventParam)
    ensures
        stored@ == converted_event_param(*param),
{
    ABIEventParam {
        name: param.name.clone(),
        type_: param.ty.clone(),
        indexed: param.indexed,
        internal_type: convert_internal_type(&param.internal_type),
    }
}

/// Converts a list of parameters, in order.
pub fn convert_params(params: &Vec<Param>) -> (stored: Vec<ABIParam>)
    ensures
        crate::types::params_of(stored@) == converted_params(params@),
{
    let mut stored: Vec<ABIParam> = Vec::new();
    let n: usize = params.len();
    let mut i: usize = 0;
    while i < n
        invariant
            n == params@.len(),
            i <= n,
            crate::types::params_of(stored@) == converted_params(params@.take(i as int)),
        decreases n - i,
    {
        let ghost before = stored@;
        stored.push(convert_param(&params[i]));
        i = i + 1;
        proof {
            assert(stored@.drop_last() =~= before);
            assert(params@.take(i as int).drop_last() =~= params@.take(i - 1));
            assert(crate::types::params_of(stored@).drop_last() =~= crate::types::params_of(before));
            assert(converted_params(params@.take(i as int)).drop_last() =~= converted_params(
                params@.take(i - 1),
            ));
            lemma_equal_by_last(
                crate::types::params_of(stored@),
                converted_params(params@.take(i as int)),
            );
        }
    }
    assert(params@.take(n as int) =~= params@);
    stored
}

/// Converts a list of event parameters, in order.
pub fn convert_event_params(params: &Vec<EventParam>) -> (stored: Vec<ABIEventParam>)
    ensures
        crate::types::event_params_of(stored@) == converted_event_params(params@),
{
    let mut stored: Vec<ABIEventParam> = Vec::new();
    let n: usize = params.len();
    let mut i: usize = 0;
    while i < n
        invariant
            n == params@.len(),
            i <= n,
            crate::types::event_params_of(stored@) == converted_event_params(
                params@.take(i as int),
            ),
        decreases n - i,
    {
        let ghost before = stored@;
        stored.push(convert_event_param(&params[i]));
        i = i + 1;
        proof {
            assert(stored@.drop_last() =~= before);
            assert(params@.take(i as int).drop_last() =~= params@.take(i - 1));
            assert(crate::types::event_params_of(stored@).drop_last()
                =~= crate::types::event_params_of(before));
            assert(converted_event_params(params@.take(i as int)).drop_last()
                =~= converted_event_params(params@.take(i - 1)));
            lemma_equal_by_last(
                crate::types::event_params_of(stored@),
                converted_event_params(params@.take(i as int)),
            );
        }
    }
    assert(params@.take(n as int) =~= params@);
    stored
}

/// The types of a list of parameters, in order.
pub fn types_of_params(params: &Vec<Param>) -> (types: Vec<String>)
    ensures
        crate::types::texts_of(types@) == param_types(params@),
{
    let mut types: Vec<String> = Vec::new();
    let n: usize = params.len();
    let mut i: usize = 0;
    while i < n
        invariant
            n == params@.len(),
            i <= n,
            crate::types::texts_of(types@) == param_types(params@.take(i as int)),
        decreases n - i,
    {
        let ghost before = types@;
        types.push(params[i].ty.clone());
        i = i + 1;
        proof {
            assert(types@.drop_last() =~= before);
            assert(params@.take(i as int).drop_last() =~= params@.take(i - 1));
            assert(crate::types::texts_of(types@).drop_last() =~= crate::types::texts_of(before));
            assert(param_types(params@.take(i as int)).drop_last() =~= param_types(
                params@.take(i - 1),
            ));
            lemma_equal_by_last(
                crate::types::texts_of(types@),
                param_types(params@.take(i as int)),
            );
        }
    }
    assert(params@.take(n as int) =~= params@);
    types
}

/// The texts of a list with a comma between each two.
pub open spec fn comma_joined(parts: Seq<Seq<char>>) -> Seq<char>
    decreases parts.len(),
{
    if parts.len() == 0 {
        Seq::empty()
    } else if parts.len() == 1 {
        parts[0]
    } else {
        comma_joined(parts.drop_last()) + ","@ + parts.last()
    }
}

/// The signature of a callable: its name, then its parameter types in
/// brackets with commas between them.
pub open spec fn signature_text(name: Seq<char>, params: Seq<Param>) -> Seq<char> {
    name + "("@ + comma_joined(param_types(params)) + ")"@
}

/// Writes the signature of a callable.
pub fn signature_of(name: &str, params: &Vec<Param>) -> (signature: String)
    ensures
        signature@ == signature_text(name@, params@),
{
    let mut signature = String::from_str(name);
    signature.append("(");
    let ghost head = signature@;
    let n: usize = params.len();
    let mut i: usize = 0;
    while i < n
        invariant
            n == params@.len(),
            i <= n,
            head == name@ + "("@,
            signature@ == head + comma_joined(param_types(params@.take(i as int))),
        decreases n - i,
    {
        if i > 0 {
            signature.append(",");
        }
        signature.append(params[i].ty.as_str());
        proof {
            let before = param_types(params@.take(i as int));
            let after = param_types(params@.take(i + 1));
            assert(after.drop_last() =~= before);
            assert(after.last() == params@[i as int].ty@);
            assert(signature@ =~= head + comma_joined(after));
        }
        i = i + 1;
    }
    assert(params@.take(n as int) =~= params@);
    signature.append(")");
    signature
}

/// The marker in front of the name of a function that was not resolved.
pub open spec fn unresolved_marker() -> Seq<u8> {
    "Unresolved_".spec_bytes()
}

/// The selector that the name of an unresolved function spells out: the
/// marker, then exactly eight hexadecimal digits.
pub open spec fn selector_in_name(name: Seq<u8>) -> Option<Seq<u8>> {
    let digits = name.skip(unresolved_marker().len() as int);
    if is_prefix_of(unresolved_marker(), name) && digits.len() == 8 && is_hex(digits) {
        Some(hex_bytes(digits))
    } else {
        None
    }
}

/// The selector that is stored for a function: the one that its name spells
/// out, if it does, else the one computed from its signature.
pub open spec fn stored_selector(function: Function) -> Seq<u8> {
    match selector_in_name(encode_utf8(function.name@)) {
        Some(selector) => selector,
        None => function.selector@,
    }
}

/// Reads the selector out of the name of an unresolved function.
pub fn selector_from_name(name: &str) -> (selector: Option<[u8; 4]>)
    ensures
        match selector {
            Some(s) => selector_in_name(name.spec_bytes()) == Some(s@),
            None => selector_in_name(name.spec_bytes()) is None,
        },
{
    let bytes = name.as_bytes();
    let marker = "Unresolved_".as_bytes();
    if !starts_with(bytes, marker) {
        return None;
    }
    let digits = vstd::slice::slice_subrange(bytes, marker.len(), bytes.len());
    assert(digits@ =~= bytes@.skip(marker@.len() as int));
    match decode(digits) {
        Ok(decoded) => {
            if decoded.len() == 4 {
                let selector: [u8; 4] = [decoded[0], decoded[1], decoded[2], decoded[3]];
                assert(selector@ =~= decoded@);
                Some(selector)
            } else {
                None
            }
        },
        Err(_) => None,
    }
}

/// The stored form of a function.
pub open spec fn converted_function(function: Function) -> FunctionModel {
    FunctionModel {
        name: function.name@,
        inputs: converted_params(function.inputs@),
        outputs: converted_params(function.outputs@),
        input_types: param_types(function.inputs@),
        output_types: param_types(function.outputs@),
        state_mutability: state_mutability_text(function.state_mutability),
        constant: function.state_mutability is Pure || function.state_mutability is View,
        payable: function.state_mutability is Payable,
        selector: stored_selector(function),
        signature: signature_text(function.name@, function.inputs@),
    }
}

/// Converts one function.
pub fn convert_function(func: &Function) -> (stored: ABIFunction)
    ensures
        stored@ == converted_function(*func),
{
    let selector = match selector_from_name(func.name.as_str()) {
        Some(s) => s,
        None => func.selector,
    };
    let constant = match func.state_mutability {
        StateMutability::Pure => true,
        StateMutability::View => true,
        _ => false,
    };
    let payable = match func.state_mutability {
        StateMutability::Payable => true,
        _ => false,
    };
    ABIFunction {
        name: func.name.clone(),
        inputs: convert_params(&func.inputs),
        outputs: convert_params(&func.outputs),
        input_types: types_of_params(&func.inputs),
        output_types: types_of_params(&func.outputs),
        state_mutability: state_mutability_to_string(func.state_mutability),
        constant,
        payable,
        selector,
        signature: signature_of(func.name.as_str(), &func.inputs),
    }
}

/// The stored form of an event.
pub open spec fn converted_event(event: Event) -> EventModel {
    EventModel {
        name: event.name@,
        inputs: converted_event_params(event.inputs@),
        anonymous: event.anonymous,
    }
}

/// The stored form of a custom error.
pub open spec fn converted_error(error: ErrorItem) -> ErrorModel {
    ErrorModel { name: error.name@, inputs: converted_params(error.inputs@) }
}

/// The selector of the entries that have none: four zero bytes.
pub open spec fn no_selector() -> Seq<u8> {
    seq![0u8, 0u8, 0u8, 0u8]
}

/// The function entry that stands for a constructor.
pub open spec fn constructor_entry(constructor: Constructor) -> FunctionModel {
    FunctionModel {
        name: "constructor"@,
        inputs: converted_params(constructor.inputs@),
        outputs: Seq::empty(),
        input_types: param_types(constructor.inputs@),
        output_types: Seq::empty(),
        state_mutability: state_mutability_text(constructor.state_mutability),
        constant: false,
        payable: constructor.state_mutability is Payable,
        selector: no_selector(),
        signature: signature_text("constructor"@, constructor.inputs@),
    }
}

/// The function entry that stands for a fallback function.
pub open spec fn fallback_entry(state_mutability: StateMutability) -> FunctionModel {
    FunctionModel {
        name: "fallback"@,
        inputs: Seq::empty(),
        outputs: Seq::empty(),
        input_types: Seq::empty(),
        output_types: Seq::empty(),
        state_mutability: state_mutability_text(state_mutability),
        constant: false,
        payable: state_mutability is Payable,
        selector: no_selector(),
        signature: "fallback()"@,
    }
}

/// The function entry that stands for a receive function.
pub open spec fn receive_entry() -> FunctionModel {
    FunctionModel {
        name: "receive"@,
        inputs: Seq::empty(),
        outputs: Seq::empty(),
        input_types: Seq::empty(),
        output_types: Seq::empty(),
        state_mutability: "payable"@,
        constant: false,
        payable: true,
        selector: no_selector(),
        signature: "receive()"@,
    }
}

/// Converts one event.
pub fn convert_event(event: &Event) -> (stored: ABIEvent)
    ensures
        stored@ == converted_event(*event),
{
    ABIEvent {
        name: event.name.clone(),
        inputs: convert_event_params(&event.inputs),
        anonymous: event.anonymous,
    }
}

/// Converts one custom error.
pub fn convert_error(error: &ErrorItem) -> (stored: ABIError)
    ensures
        stored@ == converted_error(*error),
{
    ABIError { name: error.name.clone(), inputs: convert_params(&error.inputs) }
}

fn bare_entry(name: &str, state_mutability: String, payable: bool, signature: &str) -> (stored:
    ABIFunction)
    ensures
        stored@ == (FunctionModel {
            name: name@,
            inputs: Seq::empty(),
            outputs: Seq::empty(),
            input_types: Seq::empty(),
            output_types: Seq::empty(),
            state_mutability: state_mutability@,
            constant: false,
            payable,
            selector: no_selector(),
            signature: signature@,
        }),
{
    let stored = ABIFunction {
        name: String::from_str(name),
        inputs: Vec::new(),
        outputs: Vec::new(),
        input_types: Vec::new(),
        output_types: Vec::new(),
        state_mutability,
        constant: false,
        payable,
        selector: [0u8, 0u8, 0u8, 0u8],
        signature: String::from_str(signature),
    };
    assert(stored@.inputs =~= Seq::empty());
    assert(stored@.outputs =~= Seq::empty());
    assert(stored@.input_types =~= Seq::empty());
    assert(stored@.output_types =~= Seq::empty());
    assert(stored@.selector =~= no_selector());
    stored
}

fn is_payable(state_mutability: StateMutability) -> (payable: bool)
    ensures
        payable == (state_mutability is Payable),
{
    match state_mutability {
        StateMutability::Payable => true,
        _ => false,
    }
}

/// Builds the function entry of a constructor.
pub fn convert_constructor(constructor: &Constructor) -> (stored: ABIFunction)
    ensures
        stored@ == constructor_entry(*constructor),
{
    let stored = ABIFunction {
        name: String::from_str("constructor"),
        inputs: convert_params(&constructor.inputs),
        outputs: Vec::new(),
        input_types: types_of_params(&constructor.inputs),
        output_types: Vec::new(),
        state_mutability: state_mutability_to_string(constructor.state_mutability),
        constant: false,
        payable: is_payable(constructor.state_mutability),
        selector: [0u8, 0u8, 0u8, 0u8],
        signature: signature_of("constructor", &constructor.inputs),
    };
    assert(stored@.outputs =~= Seq::empty());
    assert(stored@.output_types =~= Seq::empty());
    assert(stored@.selector =~= no_selector());
    stored
}

/// Builds the function entry of a fallback function.
pub fn convert_fallback(state_mutability: StateMutability) -> (stored: ABIFunction)
    ensures
        stored@ == fallback_entry(state_mutability),
{
    bare_entry(
        "fallback",
        state_mutability_to_string(state_mutability),
        is_payable(state_mutability),
        "fallback()",
    )
}

/// Builds the function entry of a receive function.
pub fn convert_receive() -> (stored: ABIFunction)
    ensures
        stored@ == receive_entry(),
{
    bare_entry("receive", String::from_str("payable"), true, "receive()")
}

/// The stored result of an analysis that decoded `interface` and, in its
/// storage phase, found `storage_layout` or failed with `storage_error`.
pub open spec fn assembled(
    interface: Interface,
    storage_layout: Seq<SlotModel>,
    storage_error: Option<Seq<char>>,
) -> AbiModel {
    let functions = interface.functions@.map_values(|f: Function| converted_function(f));
    AbiModel {
        functions,
        events: interface.events@.map_values(|e: Event| converted_event(e)),
        errors: interface.errors@.map_values(|e: ErrorItem| converted_error(e)),
        constructor: match interface.constructor {
            Some(c) => Some(constructor_entry(c)),
            None => None,
        },
        fallback: match interface.fallback {
            Some(sm) => Some(fallback_entry(sm)),
            None => None,
        },
        receive: if interface.receive {
            Some(receive_entry())
        } else {
            None
        },
        storage_layout,
        decompile_error: None,
        storage_error,
        by_selector: selector_index(functions),
        by_name: name_index(functions),
    }
}

fn convert_functions(functions: &Vec<Function>) -> (stored: Vec<ABIFunction>)
    ensures
        crate::types::functions_of(stored@) == functions@.map_values(
            |f: Function| converted_function(f),
        ),
{
    let mut stored: Vec<ABIFunction> = Vec::new();
    let n: usize = functions.len();
    let mut i: usize = 0;
    while i < n
        invariant
            n == functions@.len(),
            i <= n,
            crate::types::functions_of(stored@) == functions@.take(i as int).map_values(
                |f: Function| converted_function(f),
            ),
        decreases n - i,
    {
        let ghost before = stored@;
        stored.push(convert_function(&functions[i]));
        i = i + 1;
        proof {
            assert(stored@.drop_last() =~= before);
            assert(functions@.take(i as int).drop_last() =~= functions@.take(i - 1));
            assert(crate::types::functions_of(stored@).drop_last()
                =~= crate::types::functions_of(before));
            assert(functions@.take(i as int).map_values(
                |f: Function| converted_function(f),
            ).drop_last() =~= functions@.take(i - 1).map_values(
                |f: Function| converted_function(f),
            ));
            lemma_equal_by_last(
                crate::types::functions_of(stored@),
                functions@.take(i as int).map_values(|f: Function| converted_function(f)),
            );
        }
    }
    assert(functions@.take(n as int) =~= functions@);
    stored
}

fn convert_events(events: &Vec<Event>) -> (stored: Vec<ABIEvent>)
    ensures
        stored@.map_values(|e: ABIEvent| e@) == events@.map_values(
            |e: Event| converted_event(e),
        ),
{
    let mut stored: Vec<ABIEvent> = Vec::new();
    let n: usize = events.len();
    let mut i: usize = 0;
    while i < n
        invariant
            n == events@.len(),
            i <= n,
            stored@.map_values(|e: ABIEvent| e@) == events@.take(i as int).map_values(
                |e: Event| converted_event(e),
            ),
        decreases n - i,
    {
        let ghost before = stored@;
        stored.push(convert_event(&events[i]));
        i = i + 1;
        proof {
            assert(stored@.drop_last() =~= before);
            assert(events@.take(i as int).drop_last() =~= events@.take(i - 1));
            assert(stored@.map_values(|e: ABIEvent| e@).drop_last() =~= before.map_values(
                |e: ABIEvent| e@,
            ));
            assert(events@.take(i as int).map_values(|e: Event| converted_event(e)).drop_last()
                =~= events@.take(i - 1).map_values(|e: Event| converted_event(e)));
            lemma_equal_by_last(
                stored@.map_values(|e: ABIEvent| e@),
                events@.take(i as int).map_values(|e: Event| converted_event(e)),
            );
        }
    }
    assert(events@.take(n as int) =~= events@);
    stored
}

fn convert_errors(errors: &Vec<ErrorItem>) -> (stored: Vec<ABIError>)
    ensures
        stored@.map_values(|e: ABIError| e@) == errors@.map_values(
            |e: ErrorItem| converted_error(e),
        ),
{
    let mut stored: Vec<ABIError> = Vec::new();
    let n: usize = errors.len();
    let mut i: usize = 0;
    while i < n
        invariant
            n == errors@.len(),
            i <= n,
            stored@.map_values(|e: ABIError| e@) == errors@.take(i as int).map_values(
                |e: ErrorItem| converted_error(e),
            ),
        decreases n - i,
    {
        let ghost before = stored@;
        stored.push(convert_error(&errors[i]));
        i = i + 1;
        proof {
            assert(stored@.drop_last() =~= before);
            assert(errors@.take(i as int).drop_last() =~= errors@.take(i - 1));
            assert(stored@.map_values(|e: ABIError| e@).drop_last() =~= before.map_values(
                |e: ABIError| e@,
            ));
            assert(errors@.take(i as int).map_values(
                |e: ErrorItem| converted_error(e),
            ).drop_last() =~= errors@.take(i - 1).map_values(|e: ErrorItem| converted_error(e)));
            lemma_equal_by_last(
                stored@.map_values(|e: ABIError| e@),
                errors@.take(i as int).map_values(|e: ErrorItem| converted_error(e)),
            );
        }
    }
    assert(errors@.take(n as int) =~= errors@);
    stored
}

/// Puts the stored result together from a decoded interface and the outcome
/// of the storage phase. The indexes are derived from the functions.
pub fn assemble(
    interface: &Interface,
    storage_layout: Vec<StorageSlot>,
    storage_error: Option<String>,
) -> (abi: ABI)
    ensures
        abi@ == assembled(
            *interface,
            storage_layout@.map_values(|s: StorageSlot| s@),
            crate::types::text_of(storage_error),
        ),
        abi.indices_match(),
{
    let functions = convert_functions(&interface.functions);
    let events = convert_events(&interface.events);
    let errors = convert_errors(&interface.errors);
    let constructor = match &interface.constructor {
        Some(c) => Some(convert_constructor(c)),
        None => None,
    };
    let fallback = match interface.fallback {
        Some(sm) => Some(convert_fallback(sm)),
        None => None,
    };
    let receive = if interface.receive {
        Some(convert_receive())
    } else {
        None
    };
    let (by_selector, by_name) = build_indices(&functions);
    ABI {
        functions,
        events,
        errors,
        constructor,
        fallback,
        receive,
        storage_layout,
        decompile_error: None,
        storage_error,
        by_selector,
        by_name,
    }
}

} // verus!
