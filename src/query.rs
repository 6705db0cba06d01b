//! The process filter: options, errors, comparators and the expression tree.
//!
//! Numbers are fixed point: a quantity is held as an `i128` count of
//! millionths of its unit (percent, byte, second), so `75.0` percent is
//! `75_000_000`. A reading that is not a number is `None`.



pub mod attribute;
pub mod grammar;
pub mod lexer;
pub mod matcher;
pub mod number;
pub mod parser;



use vstd::prelude::*;

verus! {

/// Millionths in one unit of a fixed-point quantity.
pub const SCALE: i128 = 1_000_000;

/// Matching toggles shared by every string leaf of one compiled query.
#[derive(Debug, Clone, Copy, PartialEq, Eq, Structural)]
pub struct QueryOptions {
    pub use_regex: bool,
    pub ignore_case: bool,
    pub whole_word: bool,
}

/// Which optional process fields this build and platform provide.
#[derive(Debug, Clone, Copy, PartialEq, Eq, Structural)]
pub struct Capabilities {
    /// The scheduling `nice` value (Unix-like targets).
    pub nice: bool,
    /// GPU utilization and memory.
    pub gpu: bool,
}

/// The attribute a leaf tests.
#[derive(Debug, Clone, Copy, PartialEq, Eq, Structural)]
pub enum PrefixType {
    Pid,
    CpuPercentage,
    MemBytes,
    MemPercentage,
    ReadPerSecond,
    WritePerSecond,
    TotalRead,
    TotalWrite,
    Name,
    State,
    User,
    Time,
    Nice,
    Priority,
    GpuPercentage,
    GpuMemoryBytes,
    GpuMemoryPercentage,
}

/// The kind of operand an attribute was given.
#[derive(Debug, Clone, Copy, PartialEq, Eq, Structural)]
pub enum OperandKind {
    Text,
    Number,
    Duration,
}

/// Why a filter failed to compile.
#[derive(Debug, Clone, PartialEq, Eq)]
pub enum QueryError {
    /// An unterminated quote or parenthesis, a stray operator or a missing operand.
    LexError(String),
    /// A keyword before `:` or a comparison that names no attribute.
    UnknownPrefix(String),
    /// A known attribute given an operand of the wrong kind.
    UnsupportedAttributeForPrefix(PrefixType, OperandKind),
    /// A pattern the regex engine refused, with its message.
    InvalidRegex(String),
    /// A malformed number or unit, or a comparison without a number.
    InvalidNumberOrUnit(String),
}

/// The result of compiling part of a filter.
pub type QueryResult<T> = Result<T, QueryError>;

/// A comparison operator.
#[derive(Debug, Clone, Copy, PartialEq, Eq, Structural)]
pub enum CompareOp {
    Less,
    LessOrEqual,
    Greater,
    GreaterOrEqual,
    Equal,
}

/// Whether `value op threshold` holds.
pub open spec fn compare_holds(op: CompareOp, value: int, threshold: int) -> bool {
    match op {
        CompareOp::Less => value < threshold,
        CompareOp::LessOrEqual => value <= threshold,
        CompareOp::Greater => value > threshold,
        CompareOp::GreaterOrEqual => value >= threshold,
        CompareOp::Equal => value == threshold,
    }
}

/// Applies a comparison operator.
pub fn compare(op: CompareOp, value: i128, threshold: i128) -> (r: bool)
    ensures
        r == compare_holds(op, value as int, threshold as int),
{
    match op {
        CompareOp::Less => value < threshold,
        CompareOp::LessOrEqual => value <= threshold,
        CompareOp::Greater => value > threshold,
        CompareOp::GreaterOrEqual => value >= threshold,
        CompareOp::Equal => value == threshold,
    }
}

/// A numeric comparison against a fixed-point threshold.
#[derive(Debug, Clone, Copy, PartialEq, Eq, Structural)]
pub struct NumericalQuery {
    pub condition: CompareOp,
    /// Millionths of the attribute's unit.
    pub value: i128,
}

impl NumericalQuery {
    /// Whether a reading satisfies the comparison; a reading that is not a
    /// number satisfies none.
    pub open spec fn holds(&self, reading: Option<i128>) -> bool {
        match reading {
            Some(v) => compare_holds(self.condition, v as int, self.value as int),
            None => false,
        }
    }

    /// Tests a reading, in millionths of the attribute's unit.
    pub fn check(&self, reading: Option<i128>) -> (r: bool)
        ensures
            r == self.holds(reading),
    {
        match reading {
            Some(v) => compare(self.condition, v, self.value),
            None => false,
        }
    }
}

/// A comparison of a process's run time against a threshold.
#[derive(Debug, Clone, Copy, PartialEq, Eq, Structural)]
pub struct TimeQuery {
    pub condition: CompareOp,
    /// Microseconds.
    pub micros: i128,
}

impl TimeQuery {
    /// Whether a run time, in milliseconds, satisfies the comparison.
    pub open spec fn holds(&self, millis: u64) -> bool {
        compare_holds(self.condition, millis as int * 1000, self.micros as int)
    }

    /// Tests a run time given in milliseconds.
    pub fn check(&self, millis: u64) -> (r: bool)
        ensures
            r == self.holds(millis),
    {
        compare(self.condition, millis as i128 * 1000, self.micros)
    }
}

} // verus!
