//! Errors of the actor, and the records that a device's error stream holds.

#![allow(non_snake_case)]

use vstd::prelude::*;

verus! {

/// Why a request could not be carried out.
#[derive(Clone, Copy, Debug, PartialEq, Eq, Structural)]
pub enum GpuError {
    /// The identifier is not live: never issued, or retired since.
    UnknownResource,
    /// The identifier is live but names a resource of another kind.
    WrongResourceKind,
    /// The request breaks a rule of the API.
    ValidationFailure,
    /// The identifier's backend is not present on this platform.
    BackendUnavailable,
    /// The backend could not carry the operation out.
    OperationFailed,
}

/// A validation error reported on a device's error stream.
pub struct GPUValidationError {
    message: String,
}

impl View for GPUValidationError {
    type V = Seq<char>;

    closed spec fn view(&self) -> Seq<char> {
        self.message@
    }
}

impl GPUValidationError {
    fn new_inherited(message: String) -> (r: GPUValidationError)
        ensures
            r@ == message@,
    {
        GPUValidationError { message }
    }

    pub fn new(message: String) -> (r: GPUValidationError)
        ensures
            r@ == message@,
    {
        Self::new_inherited(message)
    }

    pub fn Constructor(message: String) -> (r: GPUValidationError)
        ensures
            r@ == message@,
    {
        Self::new(message)
    }

    pub fn Message(&self) -> (r: String)
        ensures
            r@ == self@,
    {
        self.message.clone()
    }
}

/// An allocation that the backend could not satisfy.
#[derive(Clone, Copy, Debug, PartialEq, Eq, Structural)]
pub struct GPUOutOfMemoryError {}

impl GPUOutOfMemoryError {
    fn new_inherited() -> (r: GPUOutOfMemoryError)
        ensures
            r == (GPUOutOfMemoryError {}),
    {
        GPUOutOfMemoryError {}
    }

    pub fn new() -> (r: GPUOutOfMemoryError)
        ensures
            r == (GPUOutOfMemoryError {}),
    {
        Self::new_inherited()
    }

    pub fn Constructor() -> (r: GPUOutOfMemoryError)
        ensures
            r == (GPUOutOfMemoryError {}),
    {
        Self::new()
    }
}

/// Why a device stopped serving requests.
pub struct GPUDeviceLostInfo {
    message: String,
}

impl View for GPUDeviceLostInfo {
    type V = Seq<char>;

    closed spec fn view(&self) -> Seq<char> {
        self.message@
    }
}

impl GPUDeviceLostInfo {
    pub fn new(message: String) -> (r: GPUDeviceLostInfo)
        ensures
            r@ == message@,
    {
        GPUDeviceLostInfo { message }
    }

    pub fn Message(&self) -> (r: String)
        ensures
            r@ == self@,
    {
        self.message.clone()
    }
}

/// One entry of a device's error stream.
pub enum DeviceError {
    Validation(GPUValidationError),
    OutOfMemory(GPUOutOfMemoryError),
}

} // verus!
