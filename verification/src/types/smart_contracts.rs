//! What transactions that deploy, initialise and invoke smart contracts carry.

use vstd::prelude::*;
use crate::constants::{MAX_PARAMETER_LEN, MAX_WASM_MODULE_SIZE};

verus! {

/// The reference to a deployed module: the hash of its source.
#[derive(Clone, Copy, Debug, PartialEq, Eq)]
pub struct ModuleRef {
    pub bytes: [u8; 32],
}

impl View for ModuleRef {
    type V = Seq<u8>;

    open spec fn view(&self) -> Seq<u8> {
        self.bytes@
    }
}

/// The binary source of a Wasm module: at most 65536 bytes.
#[derive(Clone, Debug, PartialEq, Eq)]
pub struct ModuleSource {
    pub bytes: Vec<u8>,
}

impl View for ModuleSource {
    type V = Seq<u8>;

    open spec fn view(&self) -> Seq<u8> {
        self.bytes@
    }
}

impl ModuleSource {
    /// The source with the given bytes, where they are few enough.
    pub fn new(bytes: Vec<u8>) -> (r: Option<ModuleSource>)
        ensures
            r is Some <==> bytes@.len() <= MAX_WASM_MODULE_SIZE,
            r matches Some(m) ==> m@ == bytes@,
    {
        if bytes.len() <= MAX_WASM_MODULE_SIZE as usize {
            Some(ModuleSource { bytes })
        } else {
            None
        }
    }

    /// The size of the source in bytes.
    pub fn size(&self) -> (n: u64)
        ensures
            n == self@.len(),
    {
        self.bytes.len() as u64
    }
}

/// A Wasm module as it is deployed: a version and the source.
#[derive(Clone, Debug, PartialEq, Eq)]
pub struct WasmModule {
    pub version: u32,
    pub source: ModuleSource,
}

/// The name of the function that initialises a contract, as the bytes of
/// its text.
#[derive(Clone, Debug, PartialEq, Eq)]
pub struct InitName {
    pub name: Vec<u8>,
}

impl View for InitName {
    type V = Seq<u8>;

    open spec fn view(&self) -> Seq<u8> {
        self.name@
    }
}

/// The name of a function that a contract instance can receive a message
/// with, as the bytes of its text.
#[derive(Clone, Debug, PartialEq, Eq)]
pub struct ReceiveName {
    pub name: Vec<u8>,
}

impl View for ReceiveName {
    type V = Seq<u8>;

    open spec fn view(&self) -> Seq<u8> {
        self.name@
    }
}

/// The parameter of a call of a contract function: at most 1024 bytes.
#[derive(Clone, Debug, PartialEq, Eq)]
pub struct Parameter {
    pub bytes: Vec<u8>,
}

impl View for Parameter {
    type V = Seq<u8>;

    open spec fn view(&self) -> Seq<u8> {
        self.bytes@
    }
}

impl Parameter {
    /// The parameter with the given bytes, where they are few enough.
    pub fn new(bytes: Vec<u8>) -> (r: Option<Parameter>)
        ensures
            r is Some <==> bytes@.len() <= MAX_PARAMETER_LEN,
            r matches Some(p) ==> p@ == bytes@,
    {
        if bytes.len() <= MAX_PARAMETER_LEN {
            Some(Parameter { bytes })
        } else {
            None
        }
    }
}

} // verus!
