//! Parsed expressions and the placeholders that they refer to.

use vstd::prelude::*;
use vstd::string::*;

use crate::error::{ErrV, StorageError};
use crate::item::{AttributeValue, AvV};
use crate::text::{join2, text_eq};

verus! {

/// A comparison operator.
#[derive(Debug, Clone, Copy, PartialEq, Eq, Structural)]
pub enum CompareOp {
    Eq,
    Ne,
    Lt,
    Le,
    Gt,
    Ge,
}

/// One step of a document path.
#[derive(Debug, PartialEq)]
pub enum PathElement {
    /// An attribute by its name; `#name` stands for a name placeholder.
    Attribute(String),
    /// An element of a list.
    Index(usize),
}

/// An expression.
#[derive(Debug, PartialEq)]
pub enum Expr {
    /// A document path.
    Path(Vec<PathElement>),
    /// A value placeholder, with its leading colon.
    Placeholder(String),
    Compare { left: Box<Expr>, op: CompareOp, right: Box<Expr> },
    And(Box<Expr>, Box<Expr>),
    Or(Box<Expr>, Box<Expr>),
    Not(Box<Expr>),
    Function { name: String, args: Vec<Expr> },
    Between { operand: Box<Expr>, low: Box<Expr>, high: Box<Expr> },
    In { operand: Box<Expr>, list: Vec<Expr> },
    /// The sum of two numbers, in update expressions.
    Plus(Box<Expr>, Box<Expr>),
    /// The difference of two numbers, in update expressions.
    Minus(Box<Expr>, Box<Expr>),
}

/// What the placeholders of an expression stand for.
#[derive(Debug, PartialEq)]
pub struct ExpressionMaps {
    /// Attribute names by placeholder, without the leading `#`.
    pub names: Vec<(String, String)>,
    /// Values by placeholder, with the leading colon.
    pub values: Vec<(String, AttributeValue)>,
}

/// The name that was given last for a placeholder among the first `n`.
pub open spec fn name_in(names: Seq<(String, String)>, k: Seq<char>, n: nat) -> Option<Seq<char>>
    decreases n,
{
    if n == 0 {
        None
    } else if names[n - 1].0@ == k {
        Some(names[n - 1].1@)
    } else {
        name_in(names, k, (n - 1) as nat)
    }
}

/// The value that was given last for a placeholder among the first `n`.
pub open spec fn value_in(values: Seq<(String, AttributeValue)>, k: Seq<char>, n: nat) -> Option<
    AvV,
>
    decreases n,
{
    if n == 0 {
        None
    } else if values[n - 1].0@ == k {
        Some(values[n - 1].1@)
    } else {
        value_in(values, k, (n - 1) as nat)
    }
}

impl ExpressionMaps {
    /// What a name placeholder stands for.
    pub open spec fn name_of(self, k: Seq<char>) -> Result<Seq<char>, ErrV> {
        match name_in(self.names@, k, self.names@.len()) {
            Some(n) => Ok(n),
            None => Err(ErrV::Validation("undefined attribute name: #"@ + k)),
        }
    }

    /// What a value placeholder stands for.
    pub open spec fn value_of(self, k: Seq<char>) -> Result<AvV, ErrV> {
        match value_in(self.values@, k, self.values@.len()) {
            Some(v) => Ok(v),
            None => Err(ErrV::Validation("undefined attribute value: "@ + k)),
        }
    }

    /// Maps from the names and values given. Where a placeholder is given
    /// twice, the last one counts.
    pub fn new(names: Vec<(String, String)>, values: Vec<(String, AttributeValue)>) -> (r:
        ExpressionMaps)
        ensures
            r.names == names,
            r.values == values,
    {
        ExpressionMaps { names, values }
    }

    /// Looks up a name placeholder.
    pub fn resolve_name(&self, k: &str) -> (r: Result<&str, StorageError>)
        ensures
            match r {
                Ok(n) => self.name_of(k@) == Ok::<Seq<char>, ErrV>(n@),
                Err(e) => self.name_of(k@) == Err::<Seq<char>, ErrV>(e@),
            },
    {
        let mut n: usize = self.names.len();
        while n > 0
            invariant
                n <= self.names.len(),
                name_in(self.names@, k@, self.names@.len()) == name_in(self.names@, k@, n as nat),
            decreases n,
        {
            if text_eq(self.names[n - 1].0.as_str(), k) {
                return Ok(self.names[n - 1].1.as_str());
            }
            n -= 1;
        }
        Err(StorageError::Validation(join2("undefined attribute name: #", k)))
    }

    /// Looks up a value placeholder.
    pub fn resolve_value(&self, k: &str) -> (r: Result<&AttributeValue, StorageError>)
        ensures
            match r {
                Ok(v) => self.value_of(k@) == Ok::<AvV, ErrV>(v@),
                Err(e) => self.value_of(k@) == Err::<AvV, ErrV>(e@),
            },
    {
        let mut n: usize = self.values.len();
        while n > 0
            invariant
                n <= self.values.len(),
                value_in(self.values@, k@, self.values@.len()) == value_in(
                    self.values@,
                    k@,
                    n as nat,
                ),
            decreases n,
        {
            if text_eq(self.values[n - 1].0.as_str(), k) {
                return Ok(&self.values[n - 1].1);
            }
            n -= 1;
        }
        Err(StorageError::Validation(join2("undefined attribute value: ", k)))
    }
}

/// The condition on a sort key in a query.
#[derive(Debug, PartialEq)]
pub enum SortKeyCondition {
    Compare { op: CompareOp, value: Expr },
    Between { low: Expr, high: Expr },
    BeginsWith { prefix: Expr },
}

/// The condition on the keys in a query.
#[derive(Debug, PartialEq)]
pub struct KeyCondition {
    /// The value of the partition key.
    pub pk_value: Expr,
    /// The values of further partition key attributes.
    pub extra_pk_conditions: Vec<(String, Expr)>,
    pub sk_condition: Option<SortKeyCondition>,
}

} // verus!
