//! Errors of the storage operations.

use vstd::prelude::*;
use vstd::string::*;

use crate::bson::{DocV, Document};
use crate::item::{opt_item, Item, ItemV};

verus! {

/// Why one operation of a transaction was refused.
#[derive(Debug, PartialEq)]
pub enum CancellationReason {
    /// The operation itself was in order.
    NoReason,
    /// The operation is not valid, with the reason in words.
    ValidationError(String),
    /// The condition did not hold, with the item where it is to be shown.
    ConditionCheckFailed(Option<Item>),
}

/// An error of a storage operation.
#[derive(Debug, PartialEq)]
pub enum StorageError {
    ConditionFailed(Option<Item>),
    Connection(String),
    DeletionProtected(String),
    IdempotentMismatch,
    IdempotentReplay,
    IndexAlreadyExists(String),
    IndexNotFound(String),
    Internal(String),
    TableAlreadyExists(String),
    TableNotActive(String),
    TableNotFound(String),
    TransactionCanceled(Vec<CancellationReason>),
    Validation(String),
}

/// The model of a cancellation reason.
#[verifier::ext_equal]
pub enum ReasonV {
    NoReason,
    ValidationError(Seq<char>),
    ConditionCheckFailed(Option<ItemV>),
}

/// The model of a storage error.
#[verifier::ext_equal]
pub enum ErrV {
    ConditionFailed(Option<ItemV>),
    Connection(Seq<char>),
    DeletionProtected(Seq<char>),
    IdempotentMismatch,
    IdempotentReplay,
    IndexAlreadyExists(Seq<char>),
    IndexNotFound(Seq<char>),
    Internal(Seq<char>),
    TableAlreadyExists(Seq<char>),
    TableNotActive(Seq<char>),
    TableNotFound(Seq<char>),
    TransactionCanceled(Seq<ReasonV>),
    Validation(Seq<char>),
}

impl View for CancellationReason {
    type V = ReasonV;

    open spec fn view(&self) -> ReasonV {
        match *self {
            CancellationReason::NoReason => ReasonV::NoReason,
            CancellationReason::ValidationError(m) => ReasonV::ValidationError(m@),
            CancellationReason::ConditionCheckFailed(i) => ReasonV::ConditionCheckFailed(
                opt_item(i),
            ),
        }
    }
}

/// The models of a list of reasons.
pub open spec fn reason_seq(v: Seq<CancellationReason>) -> Seq<ReasonV> {
    Seq::new(v.len(), |i: int| v[i]@)
}

impl View for StorageError {
    type V = ErrV;

    open spec fn view(&self) -> ErrV {
        match *self {
            StorageError::ConditionFailed(i) => ErrV::ConditionFailed(opt_item(i)),
            StorageError::Connection(m) => ErrV::Connection(m@),
            StorageError::DeletionProtected(m) => ErrV::DeletionProtected(m@),
            StorageError::IdempotentMismatch => ErrV::IdempotentMismatch,
            StorageError::IdempotentReplay => ErrV::IdempotentReplay,
            StorageError::IndexAlreadyExists(m) => ErrV::IndexAlreadyExists(m@),
            StorageError::IndexNotFound(m) => ErrV::IndexNotFound(m@),
            StorageError::Internal(m) => ErrV::Internal(m@),
            StorageError::TableAlreadyExists(m) => ErrV::TableAlreadyExists(m@),
            StorageError::TableNotActive(m) => ErrV::TableNotActive(m@),
            StorageError::TableNotFound(m) => ErrV::TableNotFound(m@),
            StorageError::TransactionCanceled(v) => ErrV::TransactionCanceled(reason_seq(v@)),
            StorageError::Validation(m) => ErrV::Validation(m@),
        }
    }
}

impl StorageError {
    /// An internal error with a message.
    pub fn internal(m: &str) -> (r: StorageError)
        ensures
            r@ == ErrV::Internal(m@),
    {
        StorageError::Internal(m.to_owned())
    }

    /// A validation error with a message.
    pub fn validation(m: &str) -> (r: StorageError)
        ensures
            r@ == ErrV::Validation(m@),
    {
        StorageError::Validation(m.to_owned())
    }
}

/// The model of a fallible document.
pub open spec fn res_doc(r: Result<Document, StorageError>) -> Result<DocV, ErrV> {
    match r {
        Ok(d) => Ok(d@),
        Err(e) => Err(e@),
    }
}

/// The model of a fallible text.
pub open spec fn res_text(r: Result<String, StorageError>) -> Result<Seq<char>, ErrV> {
    match r {
        Ok(s) => Ok(s@),
        Err(e) => Err(e@),
    }
}

/// The model of a fallible item.
pub open spec fn res_item(r: Result<Item, StorageError>) -> Result<ItemV, ErrV> {
    match r {
        Ok(i) => Ok(i@),
        Err(e) => Err(e@),
    }
}

/// The model of a fallible optional item.
pub open spec fn res_opt_item(r: Result<Option<Item>, StorageError>) -> Result<
    Option<ItemV>,
    ErrV,
> {
    match r {
        Ok(i) => Ok(opt_item(i)),
        Err(e) => Err(e@),
    }
}

/// The model of an outcome without a value.
pub open spec fn res_unit(r: Result<(), StorageError>) -> Result<(), ErrV> {
    match r {
        Ok(_) => Ok(()),
        Err(e) => Err(e@),
    }
}

} // verus!
