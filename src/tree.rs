use vstd::prelude::*;

use crate::error::ConvertError;

verus! {

/// Mathematical model of a value tree.
pub ghost enum Tree {
    String(Seq<char>),
    Integer(int),
    /// IEEE-754 binary64 bit pattern.
    Float(u64),
    Boolean(bool),
    Array(Seq<Tree>),
    /// Entries in the order in which they are held.
    Table(Seq<(Seq<char>, Tree)>),
    /// Canonical textual rendering of a datetime.
    Datetime(Seq<char>),
}

/// Whether a binary64 bit pattern is a finite number: its exponent field is
/// not all ones (which would make it an infinity or a NaN).
pub open spec fn is_finite_bits(bits: u64) -> bool {
    (bits >> 52u64) & 0x7ffu64 != 0x7ffu64
}

impl Tree {
    /// No float anywhere in the tree is an infinity or a NaN.
    pub open spec fn all_finite(self) -> bool
        decreases self,
    {
        match self {
            Tree::Float(b) => is_finite_bits(b),
            Tree::Array(items) => forall|i: int|
                #![trigger items[i]]
                0 <= i < items.len() ==> items[i].all_finite(),
            Tree::Table(entries) => forall|i: int|
                #![trigger entries[i]]
                0 <= i < entries.len() ==> entries[i].1.all_finite(),
            _ => true,
        }
    }

    /// Every table, at any depth, is a mapping: its keys are distinct.
    pub open spec fn well_formed(self) -> bool
        decreases self,
    {
        match self {
            Tree::Array(items) => forall|i: int|
                #![trigger items[i]]
                0 <= i < items.len() ==> items[i].well_formed(),
            Tree::Table(entries) => {
                &&& forall|i: int, j: int|
                    #![trigger entries[i], entries[j]]
                    0 <= i < j < entries.len() ==> entries[i].0 != entries[j].0
                &&& forall|i: int|
                    #![trigger entries[i]]
                    0 <= i < entries.len() ==> entries[i].1.well_formed()
            },
            _ => true,
        }
    }

    /// No datetime anywhere in the tree.
    pub open spec fn no_datetime(self) -> bool
        decreases self,
    {
        match self {
            Tree::Datetime(_) => false,
            Tree::Array(items) => forall|i: int|
                #![trigger items[i]]
                0 <= i < items.len() ==> items[i].no_datetime(),
            Tree::Table(entries) => forall|i: int|
                #![trigger entries[i]]
                0 <= i < entries.len() ==> entries[i].1.no_datetime(),
            _ => true,
        }
    }

    /// The tree as the generic format sees it: each datetime becomes the
    /// string of its canonical text; everything else keeps its shape.
    pub open spec fn generic(self) -> Tree
        decreases self,
    {
        match self {
            Tree::Datetime(s) => Tree::String(s),
            Tree::Array(items) => Tree::Array(
                Seq::new(
                    items.len(),
                    |i: int|
                        if 0 <= i < items.len() {
                            items[i].generic()
                        } else {
                            Tree::Boolean(false)
                        },
                ),
            ),
            Tree::Table(entries) => Tree::Table(
                Seq::new(
                    entries.len(),
                    |i: int|
                        if 0 <= i < entries.len() {
                            (entries[i].0, entries[i].1.generic())
                        } else {
                            (Seq::empty(), Tree::Boolean(false))
                        },
                ),
            ),
            _ => self,
        }
    }
}

/// Outcome of turning a config-style tree into the generic format's model.
pub open spec fn config_to_generic(t: Tree) -> Result<Tree, ConvertError> {
    if t.all_finite() {
        Ok(t.generic())
    } else {
        Err(ConvertError::InvalidNumber)
    }
}

/// Outcome of turning a generic-format tree into the config-style model.
pub open spec fn generic_to_config(t: Tree) -> Result<Tree, ConvertError> {
    if !(t is Table) {
        Err(ConvertError::UnsupportedRoot)
    } else if !t.all_finite() {
        Err(ConvertError::InvalidNumber)
    } else {
        Ok(t)
    }
}

/// A conversion's result, with the value seen through its model.
pub open spec fn view_result(r: Result<Value, ConvertError>) -> Result<Tree, ConvertError> {
    match r {
        Ok(v) => Ok(v@),
        Err(e) => Err(e),
    }
}

/// A value tree shared by the config-style and the generic format.
#[derive(Debug, PartialEq)]
pub enum Value {
    String(String),
    Integer(i64),
    /// A double, held as its IEEE-754 binary64 bit pattern.
    Float(u64),
    Boolean(bool),
    Array(Vec<Value>),
    /// Entries in order of insertion.
    Table(Vec<(String, Value)>),
    /// A datetime of the config-style format, as its canonical text.
    Datetime(String),
}

impl View for Value {
    type V = Tree;

    open spec fn view(&self) -> Tree {
        tree_of(*self)
    }
}

/// The model of a value: the same shape, with text as character sequences.
pub open spec fn tree_of(v: Value) -> Tree
    decreases v,
{
        match v {
            Value::String(s) => Tree::String(s@),
            Value::Integer(i) => Tree::Integer(i as int),
            Value::Float(b) => Tree::Float(b),
            Value::Boolean(b) => Tree::Boolean(b),
            Value::Array(items) => Tree::Array(
                Seq::new(items.len() as nat, |i: int|
                    if 0 <= i < items.len() { tree_of(items[i]) } else { Tree::Boolean(false) }),
            ),
            Value::Table(entries) => Tree::Table(
                Seq::new(entries.len() as nat, |i: int|
                    if 0 <= i < entries.len() {
                        (entries[i].0@, tree_of(entries[i].1))
                    } else {
                        (Seq::empty(), Tree::Boolean(false))
                    }),
            ),
            Value::Datetime(s) => Tree::Datetime(s@),
        }
}

} // verus!
