//! The errors that end a transaction.

use crate::decimal::Decimal;
use crate::types::{Address, BID, RID};
use vstd::prelude::*;

verus! {

/// The error type of the sandboxed executor, `wasmi::Error`. It is carried
/// through as an opaque payload; nothing is stated of what it holds.
#[verifier::external_type_specification]
#[verifier::external_body]
pub struct ExExecutorError(wasmi::Error);

/// Why a container refused an operation.
#[derive(Debug, Clone, Copy, PartialEq, Eq, Structural)]
pub enum BucketError {
    /// The two containers hold different resources.
    ResourceNotMatching,
    /// More was asked for than the container holds.
    InsufficientBalance,
    /// The amount is negative or finer than the resource's divisibility.
    InvalidAmount(Decimal),
    /// The merged balance cannot be represented.
    BalanceOverflow,
}

/// Why a byte string could not be decoded.
#[derive(Debug, Clone, Copy, PartialEq, Eq, Structural)]
pub enum DecodeError {
    /// The input ended before the value did.
    Underflow { required: usize, remaining: usize },
    /// A type tag other than the expected one was found.
    InvalidType { expected: u8, actual: u8 },
    /// Bytes were left over after the value.
    NotAllBytesUsed(usize),
    /// A value outside the range of its type was found.
    InvalidValue(u8),
    /// A count of fields other than the schema's was found.
    InvalidLength { declared: usize, found: u8 },
    /// The schema is not one that a value can be checked against.
    UnsupportedType,
    /// A stored resource definition is not a valid one.
    InvalidDefinition,
}

/// An error that occurred while a transaction ran. Each one aborts the
/// whole transaction.
#[derive(Debug)]
pub enum RuntimeError {
    InvalidModule(wasmi::Error),
    UnableToInstantiate(wasmi::Error),
    StartFunctionNotAllowed,
    FloatingPointNotAllowed,
    NoValidMemoryExport,
    InvokeError(wasmi::Error),
    MemoryAccessError(wasmi::Error),
    NoReturnValue,
    InvalidReturnType,
    InvalidOpCode(u32),
    InvalidRequest(DecodeError),
    InvalidData(DecodeError),
    UnknownHostFunction(usize),
    UnableToAllocateMemory,
    ResourceLeak(Vec<BID>, Vec<RID>),
    PackageAlreadyExists(Address),
    ComponentAlreadyExists(Address),
    ResourceAlreadyExists(Address),
    PackageNotFound(Address),
    ComponentNotFound(Address),
    ResourceNotFound(Address),
    FixedResourceMintNotAllowed,
    UnauthorizedToMint,
    UnauthorizedToBurn,
    UnauthorizedAccess,
    BucketNotFound,
    ReferenceNotFound,
    AccountingError(BucketError),
    UnauthorizedToWithdraw,
    PersistedBucketMoveNotAllowed,
    ReferenceNotAllowed,
    VmNotStarted,
    InvalidLogLevel,
}

/// The broad classes of errors.
#[derive(Debug, Clone, Copy, PartialEq, Eq, Structural)]
pub enum ErrorClass {
    /// The sandboxed code was rejected when it was loaded.
    Module,
    /// A call into or out of the sandboxed code went wrong.
    Invocation,
    /// A request or a stored value was malformed.
    Data,
    /// An object exists already, or does not exist.
    Existence,
    /// A rule on balances or supply was broken.
    Accounting,
    /// The caller may not invoke the method.
    Authorization,
    /// A container or reference was left behind.
    Leak,
}

impl RuntimeError {
    /// The class that the error belongs to.
    pub open spec fn class_of(self) -> ErrorClass {
        match self {
            RuntimeError::InvalidModule(_)
            | RuntimeError::UnableToInstantiate(_)
            | RuntimeError::StartFunctionNotAllowed
            | RuntimeError::FloatingPointNotAllowed
            | RuntimeError::NoValidMemoryExport => ErrorClass::Module,
            RuntimeError::InvokeError(_)
            | RuntimeError::MemoryAccessError(_)
            | RuntimeError::NoReturnValue
            | RuntimeError::InvalidReturnType
            | RuntimeError::InvalidOpCode(_)
            | RuntimeError::UnknownHostFunction(_)
            | RuntimeError::UnableToAllocateMemory
            | RuntimeError::VmNotStarted
            | RuntimeError::InvalidLogLevel => ErrorClass::Invocation,
            RuntimeError::InvalidRequest(_) | RuntimeError::InvalidData(_) => ErrorClass::Data,
            RuntimeError::PackageAlreadyExists(_)
            | RuntimeError::ComponentAlreadyExists(_)
            | RuntimeError::ResourceAlreadyExists(_)
            | RuntimeError::PackageNotFound(_)
            | RuntimeError::ComponentNotFound(_)
            | RuntimeError::ResourceNotFound(_)
            | RuntimeError::BucketNotFound
            | RuntimeError::ReferenceNotFound => ErrorClass::Existence,
            RuntimeError::FixedResourceMintNotAllowed
            | RuntimeError::UnauthorizedToMint
            | RuntimeError::UnauthorizedToBurn
            | RuntimeError::AccountingError(_)
            | RuntimeError::UnauthorizedToWithdraw
            | RuntimeError::PersistedBucketMoveNotAllowed
            | RuntimeError::ReferenceNotAllowed => ErrorClass::Accounting,
            RuntimeError::UnauthorizedAccess => ErrorClass::Authorization,
            RuntimeError::ResourceLeak(_, _) => ErrorClass::Leak,
        }
    }

    /// Whether the error points at a broken execution environment rather
    /// than at a transaction that can be rejected: an invalid module, an
    /// invalid call number, or an execution context that was never started.
    pub open spec fn is_integrity_failure(self) -> bool {
        self is InvalidModule || self is InvalidOpCode || self is VmNotStarted
    }

    /// The class that the error belongs to.
    pub fn class(&self) -> (c: ErrorClass)
        ensures
            c == self.class_of(),
    {
        match self {
            RuntimeError::InvalidModule(_)
            | RuntimeError::UnableToInstantiate(_)
            | RuntimeError::StartFunctionNotAllowed
            | RuntimeError::FloatingPointNotAllowed
            | RuntimeError::NoValidMemoryExport => ErrorClass::Module,
            RuntimeError::InvokeError(_)
            | RuntimeError::MemoryAccessError(_)
            | RuntimeError::NoReturnValue
            | RuntimeError::InvalidReturnType
            | RuntimeError::InvalidOpCode(_)
            | RuntimeError::UnknownHostFunction(_)
            | RuntimeError::UnableToAllocateMemory
            | RuntimeError::VmNotStarted
            | RuntimeError::InvalidLogLevel => ErrorClass::Invocation,
            RuntimeError::InvalidRequest(_) | RuntimeError::InvalidData(_) => ErrorClass::Data,
            RuntimeError::PackageAlreadyExists(_)
            | RuntimeError::ComponentAlreadyExists(_)
            | RuntimeError::ResourceAlreadyExists(_)
            | RuntimeError::PackageNotFound(_)
            | RuntimeError::ComponentNotFound(_)
            | RuntimeError::ResourceNotFound(_)
            | RuntimeError::BucketNotFound
            | RuntimeError::ReferenceNotFound => ErrorClass::Existence,
            RuntimeError::FixedResourceMintNotAllowed
            | RuntimeError::UnauthorizedToMint
            | RuntimeError::UnauthorizedToBurn
            | RuntimeError::AccountingError(_)
            | RuntimeError::UnauthorizedToWithdraw
            | RuntimeError::PersistedBucketMoveNotAllowed
            | RuntimeError::ReferenceNotAllowed => ErrorClass::Accounting,
            RuntimeError::UnauthorizedAccess => ErrorClass::Authorization,
            RuntimeError::ResourceLeak(_, _) => ErrorClass::Leak,
        }
    }

    /// Whether the error points at a broken execution environment.
    pub fn is_engine_failure(&self) -> (r: bool)
        ensures
            r == self.is_integrity_failure(),
    {
        match self {
            RuntimeError::InvalidModule(_) => true,
            RuntimeError::InvalidOpCode(_) => true,
            RuntimeError::VmNotStarted => true,
            _ => false,
        }
    }
}

} // verus!
