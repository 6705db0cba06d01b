//! Attributes: the leaf tests of a query, each reading one field of a process.

use vstd::prelude::*;

use super::matcher::{regex_accepts, regex_pattern, StringMatcher};
use super::{NumericalQuery, OperandKind, PrefixType, QueryError, QueryOptions, QueryResult, TimeQuery, SCALE};

verus! {

/// The fields of one process that a filter can test.
///
/// Fractional readings are fixed point, in millionths of a percent; `None`
/// stands for a reading that is not a number.
#[derive(Debug, Clone)]
pub struct ProcessRecord {
    pub pid: u32,
    pub name: String,
    pub command: String,
    pub cpu_usage_percent: Option<i128>,
    pub mem_usage: u64,
    pub mem_usage_percent: Option<i128>,
    pub read_per_sec: u64,
    pub write_per_sec: u64,
    pub total_read: u64,
    pub total_write: u64,
    pub process_state: String,
    pub user: Option<String>,
    /// Run time in milliseconds.
    pub time_millis: u64,
    pub nice: i32,
    pub priority: i32,
    pub gpu_util: u64,
    pub gpu_mem_percent: Option<i128>,
    pub gpu_mem: u64,
}

/// The character of a decimal digit.
pub open spec fn digit_char(d: nat) -> char {
    if d == 0 { '0' } else if d == 1 { '1' } else if d == 2 { '2' } else if d == 3 { '3' }
    else if d == 4 { '4' } else if d == 5 { '5' } else if d == 6 { '6' } else if d == 7 { '7' }
    else if d == 8 { '8' } else { '9' }
}

/// The decimal text of a natural number, without leading zeros.
pub open spec fn decimal_text(n: nat) -> Seq<char>
    decreases n,
{
    if n < 10 {
        seq![digit_char(n)]
    } else {
        decimal_text(n / 10).push(digit_char(n % 10))
    }
}

/// Relies on `u32`'s `to_string`: its decimal text.
#[verifier::external_body]
fn decimal_string(n: u32) -> (r: String)
    ensures
        r@ == decimal_text(n as nat),
{
    n.to_string()
}

/// An integer reading as a fixed-point quantity.
pub open spec fn scaled(v: int) -> Option<i128> {
    Some((v * SCALE) as i128)
}

fn scale_u64(v: u64) -> (r: Option<i128>)
    ensures
        r == scaled(v as int),
{
    proof {
        assert(v as int * SCALE <= u64::MAX as int * 1_000_000) by (nonlinear_arith)
            requires v as int <= u64::MAX as int;
    }
    Some(v as i128 * SCALE)
}

fn scale_i32(v: i32) -> (r: Option<i128>)
    ensures
        r == scaled(v as int),
{
    Some(v as i128 * SCALE)
}

/// The text a user attribute is matched against: the user, or `N/A` when unknown.
pub open spec fn user_text(user: Option<String>) -> Seq<char> {
    match user {
        Some(u) => u@,
        None => "N/A"@,
    }
}

/// An attribute (leaf node) of a query.
pub enum ProcessAttribute {
    /// Always matches; stands for a blank sub-expression.
    Empty,
    Pid(StringMatcher),
    CpuPercentage(NumericalQuery),
    MemBytes(NumericalQuery),
    MemPercentage(NumericalQuery),
    ReadPerSecond(NumericalQuery),
    WritePerSecond(NumericalQuery),
    TotalRead(NumericalQuery),
    TotalWrite(NumericalQuery),
    /// An untagged search of the name or the command line.
    Name(StringMatcher),
    State(StringMatcher),
    User(StringMatcher),
    Time(TimeQuery),
    Nice(NumericalQuery),
    Priority(NumericalQuery),
    GpuPercentage(NumericalQuery),
    GpuMemoryPercentage(NumericalQuery),
    GpuMemoryBytes(NumericalQuery),
}

impl ProcessAttribute {
    /// Whether this leaf accepts a process.
    pub open spec fn accepts(&self, p: &ProcessRecord, is_using_command: bool) -> bool {
        match self {
            ProcessAttribute::Empty => true,
            ProcessAttribute::Pid(m) => m.accepts(decimal_text(p.pid as nat)),
            ProcessAttribute::CpuPercentage(q) => q.holds(p.cpu_usage_percent),
            ProcessAttribute::MemBytes(q) => q.holds(scaled(p.mem_usage as int)),
            ProcessAttribute::MemPercentage(q) => q.holds(p.mem_usage_percent),
            ProcessAttribute::ReadPerSecond(q) => q.holds(scaled(p.read_per_sec as int)),
            ProcessAttribute::WritePerSecond(q) => q.holds(scaled(p.write_per_sec as int)),
            ProcessAttribute::TotalRead(q) => q.holds(scaled(p.total_read as int)),
            ProcessAttribute::TotalWrite(q) => q.holds(scaled(p.total_write as int)),
            ProcessAttribute::Name(m) => m.accepts(
                if is_using_command {
                    p.command@
                } else {
                    p.name@
                },
            ),
            ProcessAttribute::State(m) => m.accepts(p.process_state@),
            ProcessAttribute::User(m) => m.accepts(user_text(p.user)),
            ProcessAttribute::Time(q) => q.holds(p.time_millis),
            ProcessAttribute::Nice(q) => q.holds(scaled(p.nice as int)),
            ProcessAttribute::Priority(q) => q.holds(scaled(p.priority as int)),
            ProcessAttribute::GpuPercentage(q) => q.holds(scaled(p.gpu_util as int)),
            ProcessAttribute::GpuMemoryPercentage(q) => q.holds(p.gpu_mem_percent),
            ProcessAttribute::GpuMemoryBytes(q) => q.holds(scaled(p.gpu_mem as int)),
        }
    }

    /// Tests a process against this leaf.
    pub fn check(&self, process: &ProcessRecord, is_using_command: bool) -> (r: bool)
        ensures
            r == self.accepts(process, is_using_command),
    {
        match self {
            ProcessAttribute::Empty => true,
            ProcessAttribute::Pid(matcher) => {
                let text = decimal_string(process.pid);
                matcher.is_match(text.as_str())
            },
            ProcessAttribute::CpuPercentage(cmp) => cmp.check(process.cpu_usage_percent),
            ProcessAttribute::MemBytes(cmp) => cmp.check(scale_u64(process.mem_usage)),
            ProcessAttribute::MemPercentage(cmp) => cmp.check(process.mem_usage_percent),
            ProcessAttribute::ReadPerSecond(cmp) => cmp.check(scale_u64(process.read_per_sec)),
            ProcessAttribute::WritePerSecond(cmp) => cmp.check(scale_u64(process.write_per_sec)),
            ProcessAttribute::TotalRead(cmp) => cmp.check(scale_u64(process.total_read)),
            ProcessAttribute::TotalWrite(cmp) => cmp.check(scale_u64(process.total_write)),
            ProcessAttribute::Name(matcher) => {
                if is_using_command {
                    matcher.is_match(process.command.as_str())
                } else {
                    matcher.is_match(process.name.as_str())
                }
            },
            ProcessAttribute::State(matcher) => matcher.is_match(process.process_state.as_str()),
            ProcessAttribute::User(matcher) => match &process.user {
                Some(user) => matcher.is_match(user.as_str()),
                None => matcher.is_match("N/A"),
            },
            ProcessAttribute::Time(time) => time.check(process.time_millis),
            ProcessAttribute::Nice(cmp) => cmp.check(scale_i32(process.nice)),
            ProcessAttribute::Priority(cmp) => cmp.check(scale_i32(process.priority)),
            ProcessAttribute::GpuPercentage(cmp) => cmp.check(scale_u64(process.gpu_util)),
            ProcessAttribute::GpuMemoryPercentage(cmp) => cmp.check(process.gpu_mem_percent),
            ProcessAttribute::GpuMemoryBytes(cmp) => cmp.check(scale_u64(process.gpu_mem)),
        }
    }
}

/// Whether an attribute takes a text operand.
pub open spec fn is_string_prefix(prefix: PrefixType) -> bool {
    matches!(prefix, PrefixType::Pid | PrefixType::Name | PrefixType::State | PrefixType::User)
}

/// Builds the leaf for a text operand.
pub fn new_string_attribute(prefix_type: PrefixType, base: &str, regex_options: &QueryOptions) -> (r:
    QueryResult<ProcessAttribute>)
    ensures
        !is_string_prefix(prefix_type) ==> r == Err::<ProcessAttribute, QueryError>(
            QueryError::UnsupportedAttributeForPrefix(prefix_type, OperandKind::Text),
        ),
        is_string_prefix(prefix_type) ==> (r is Err <==> regex_options.use_regex && !regex_accepts(
            regex_pattern(base@, regex_options.ignore_case),
        )),
        r is Err && is_string_prefix(prefix_type) ==> r->Err_0 is InvalidRegex,
        r is Ok ==> match r->Ok_0 {
            ProcessAttribute::Pid(m) => prefix_type == PrefixType::Pid && m.built_from(base@, *regex_options),
            ProcessAttribute::Name(m) => prefix_type == PrefixType::Name && m.built_from(base@, *regex_options),
            ProcessAttribute::State(m) => prefix_type == PrefixType::State && m.built_from(base@, *regex_options),
            ProcessAttribute::User(m) => prefix_type == PrefixType::User && m.built_from(base@, *regex_options),
            _ => false,
        },
{
    match prefix_type {
        PrefixType::Pid | PrefixType::Name | PrefixType::State | PrefixType::User => {
            let matcher = match StringMatcher::from_query(base, regex_options) {
                Ok(m) => m,
                Err(e) => {
                    return Err(QueryError::InvalidRegex(e));
                },
            };
            match prefix_type {
                PrefixType::Pid => Ok(ProcessAttribute::Pid(matcher)),
                PrefixType::Name => Ok(ProcessAttribute::Name(matcher)),
                PrefixType::State => Ok(ProcessAttribute::State(matcher)),
                _ => Ok(ProcessAttribute::User(matcher)),
            }
        },
        _ => Err(QueryError::UnsupportedAttributeForPrefix(prefix_type, OperandKind::Text)),
    }
}

/// Builds the leaf for a run-time comparison.
pub fn new_time_attribute(prefix_type: PrefixType, query: TimeQuery) -> (r: QueryResult<ProcessAttribute>)
    ensures
        prefix_type == PrefixType::Time ==> r == Ok::<ProcessAttribute, QueryError>(
            ProcessAttribute::Time(query),
        ),
        prefix_type != PrefixType::Time ==> r == Err::<ProcessAttribute, QueryError>(
            QueryError::UnsupportedAttributeForPrefix(prefix_type, OperandKind::Duration),
        ),
{
    match prefix_type {
        PrefixType::Time => Ok(ProcessAttribute::Time(query)),
        _ => Err(QueryError::UnsupportedAttributeForPrefix(prefix_type, OperandKind::Duration)),
    }
}

/// The numeric leaf of an attribute, if it takes a number.
pub open spec fn numerical_leaf(prefix: PrefixType, q: NumericalQuery) -> Option<ProcessAttribute> {
    match prefix {
        PrefixType::CpuPercentage => Some(ProcessAttribute::CpuPercentage(q)),
        PrefixType::MemBytes => Some(ProcessAttribute::MemBytes(q)),
        PrefixType::MemPercentage => Some(ProcessAttribute::MemPercentage(q)),
        PrefixType::ReadPerSecond => Some(ProcessAttribute::ReadPerSecond(q)),
        PrefixType::WritePerSecond => Some(ProcessAttribute::WritePerSecond(q)),
        PrefixType::TotalRead => Some(ProcessAttribute::TotalRead(q)),
        PrefixType::TotalWrite => Some(ProcessAttribute::TotalWrite(q)),
        PrefixType::Nice => Some(ProcessAttribute::Nice(q)),
        PrefixType::Priority => Some(ProcessAttribute::Priority(q)),
        PrefixType::GpuPercentage => Some(ProcessAttribute::GpuPercentage(q)),
        PrefixType::GpuMemoryBytes => Some(ProcessAttribute::GpuMemoryBytes(q)),
        PrefixType::GpuMemoryPercentage => Some(ProcessAttribute::GpuMemoryPercentage(q)),
        _ => None,
    }
}

/// Builds the leaf for a numeric comparison.
pub fn new_numerical_attribute(prefix_type: PrefixType, query: NumericalQuery) -> (r: QueryResult<ProcessAttribute>)
    ensures
        numerical_leaf(prefix_type, query) is Some ==> r is Ok && r->Ok_0 == numerical_leaf(prefix_type, query)->0,
        numerical_leaf(prefix_type, query) is None ==> r == Err::<ProcessAttribute, QueryError>(
            QueryError::UnsupportedAttributeForPrefix(prefix_type, OperandKind::Number),
        ),
{
    match prefix_type {
        PrefixType::CpuPercentage => Ok(ProcessAttribute::CpuPercentage(query)),
        PrefixType::MemBytes => Ok(ProcessAttribute::MemBytes(query)),
        PrefixType::MemPercentage => Ok(ProcessAttribute::MemPercentage(query)),
        PrefixType::ReadPerSecond => Ok(ProcessAttribute::ReadPerSecond(query)),
        PrefixType::WritePerSecond => Ok(ProcessAttribute::WritePerSecond(query)),
        PrefixType::TotalRead => Ok(ProcessAttribute::TotalRead(query)),
        PrefixType::TotalWrite => Ok(ProcessAttribute::TotalWrite(query)),
        PrefixType::Nice => Ok(ProcessAttribute::Nice(query)),
        PrefixType::Priority => Ok(ProcessAttribute::Priority(query)),
        PrefixType::GpuPercentage => Ok(ProcessAttribute::GpuPercentage(query)),
        PrefixType::GpuMemoryBytes => Ok(ProcessAttribute::GpuMemoryBytes(query)),
        PrefixType::GpuMemoryPercentage => Ok(ProcessAttribute::GpuMemoryPercentage(query)),
        _ => Err(QueryError::UnsupportedAttributeForPrefix(prefix_type, OperandKind::Number)),
    }
}

} // verus!
