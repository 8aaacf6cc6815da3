//! The interface description as the analysis hands it back, in plain values.

use vstd::prelude::*;

verus! {

/// How a function may touch the chain state.
#[derive(Debug, Clone, Copy, PartialEq, Eq)]
pub enum StateMutability {
    Pure,
    View,
    NonPayable,
    Payable,
}

/// The kind of type that the contract's author wrote for a parameter.
#[derive(Debug, Clone)]
pub enum InternalType {
    AddressPayable,
    Contract,
    Enum,
    Struct,
    /// Any other type, by its name.
    Other { ty: String },
}

/// A parameter of a function, a constructor or an error.
#[derive(Debug, Clone)]
pub struct Param {
    pub name: String,
    pub ty: String,
    pub internal_type: Option<InternalType>,
}

/// A parameter of an event.
#[derive(Debug, Clone)]
pub struct EventParam {
    pub name: String,
    pub ty: String,
    pub indexed: bool,
    pub internal_type: Option<InternalType>,
}

/// A function, with the selector that was computed from its signature.
#[derive(Debug, Clone)]
pub struct Function {
    pub name: String,
    pub inputs: Vec<Param>,
    pub outputs: Vec<Param>,
    pub state_mutability: StateMutability,
    pub selector: [u8; 4],
}

/// An event.
#[derive(Debug, Clone)]
pub struct Event {
    pub name: String,
    pub inputs: Vec<EventParam>,
    pub anonymous: bool,
}

/// A custom error.
#[derive(Debug, Clone)]
pub struct ErrorItem {
    pub name: String,
    pub inputs: Vec<Param>,
}

/// The constructor.
#[derive(Debug, Clone)]
pub struct Constructor {
    pub inputs: Vec<Param>,
    pub state_mutability: StateMutability,
}

/// A whole decoded interface.
#[derive(Debug, Clone)]
pub struct Interface {
    pub functions: Vec<Function>,
    pub events: Vec<Event>,
    pub errors: Vec<ErrorItem>,
    pub constructor: Option<Constructor>,
    /// The state mutability of the fallback function, if there is one.
    pub fallback: Option<StateMutability>,
    /// Whether there is a receive function.
    pub receive: bool,
}

} // verus!
