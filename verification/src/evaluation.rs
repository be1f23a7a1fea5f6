//! Template substitution and condition evaluation.
//!
//! A template may hold `{{input}}` and `{{name}}` tags; substitution
//! replaces the input tag first, then every variable's tag, one pass per
//! tag. A condition is an operator token with two operands: `str_*`
//! operators compare the operands as text, the six relational operators
//! compare them as decimal numbers.

#![verifier::loop_isolation(false)]

use vstd::prelude::*;

use crate::errors::{EngineError, ErrModel};
use crate::numeric::{
    compare_numbers, num_eq, num_lt, parse_number, parse_number_spec, NumOrder,
};
use crate::text::{
    contains_seq, lower_of, occurs_at, replace_all, replace_all_spec, str_contains, str_ends_with,
    str_eq, str_starts_with, to_lowercase_str,
};
use crate::vars::{Entries, VariableStore};

verus! {

// ---------------------------------------------------------------------------
// Template substitution
// ---------------------------------------------------------------------------

/// The tag that a variable named `name` is addressed by in templates:
/// the name is lowercased and wrapped in double braces.
pub open spec fn var_tag(name: Seq<char>) -> Seq<char> {
    "{{"@ + lower_of(name) + "}}"@
}

/// Substitute every store entry's tag in order, one pass per entry.
pub open spec fn subst_vars(t: Seq<char>, entries: Entries) -> Seq<char>
    decreases entries.len(),
{
    if entries.len() == 0 {
        t
    } else {
        subst_vars(replace_all_spec(t, var_tag(entries[0].0), entries[0].1), entries.skip(1))
    }
}

/// Full template substitution: first the `{{input}}` tag, then each
/// variable's tag, in store order, one pass per tag.
pub open spec fn subst_spec(t: Seq<char>, input: Seq<char>, entries: Entries) -> Seq<char> {
    subst_vars(replace_all_spec(t, "{{input}}"@, input), entries)
}

/// Substitution applied to each element of a list, preserving order.
pub open spec fn subst_vec_spec(ts: Seq<Seq<char>>, input: Seq<char>, entries: Entries) -> Seq<
    Seq<char>,
> {
    ts.map_values(|t: Seq<char>| subst_spec(t, input, entries))
}

/// The `{{name}}` tag for a variable, built from the lowercased name.
fn build_tag(name: &str) -> (r: String)
    ensures
        r@ == var_tag(name@),
        r@.len() >= 4,
{
    let lowered = to_lowercase_str(name);
    let mut t = String::from_str("{{");
    t.append(lowered.as_str());
    t.append("}}");
    proof {
        reveal_strlit("{{");
        reveal_strlit("}}");
        assert(t@ =~= var_tag(name@));
    }
    t
}

/// Resolve a template against the current input and variable store:
/// replace the `{{input}}` tag by the input value, then each variable's
/// tag by its value, in a single pass per tag.
pub fn replace_variables_tag(template: &str, input_str: &str, variables: &VariableStore) -> (r:
    String)
    ensures
        r@ == subst_spec(template@, input_str@, variables@),
{
    proof {
        reveal_strlit("{{input}}");
    }
    let mut current = replace_all(template, "{{input}}", input_str);
    let n = variables.count();
    let mut i: usize = 0;
    proof {
        assert(variables@.skip(0) =~= variables@);
    }
    while i < n
        invariant
            i <= n,
            n == variables@.len(),
            subst_vars(current@, variables@.skip(i as int)) == subst_spec(
                template@,
                input_str@,
                variables@,
            ),
        decreases n - i,
    {
        let tag = build_tag(variables.key_at(i).as_str());
        let next = replace_all(current.as_str(), tag.as_str(), variables.value_at(i).as_str());
        proof {
            let rest = variables@.skip(i as int);
            assert(rest[0] == variables@[i as int]);
            assert(rest.skip(1) =~= variables@.skip(i as int + 1));
        }
        current = next;
        i += 1;
    }
    current
}

/// Resolve each template of a list, preserving order and length.
pub fn replace_variables_tag_vec(
    vec_of_str: &Vec<String>,
    input_str: &str,
    variables: &VariableStore,
) -> (r: Vec<String>)
    ensures
        r@.len() == vec_of_str@.len(),
        forall|i: int|
            0 <= i < r@.len() ==> (#[trigger] r@[i])@ == subst_spec(
                vec_of_str@[i]@,
                input_str@,
                variables@,
            ),
{
    let mut out: Vec<String> = Vec::new();
    let mut i: usize = 0;
    let n = vec_of_str.len();
    while i < n
        invariant
            i <= n,
            n == vec_of_str@.len(),
            out@.len() == i,
            forall|j: int|
                0 <= j < i ==> (#[trigger] out@[j])@ == subst_spec(
                    vec_of_str@[j]@,
                    input_str@,
                    variables@,
                ),
        decreases n - i,
    {
        let resolved = replace_variables_tag(vec_of_str[i].as_str(), input_str, variables);
        out.push(resolved);
        i += 1;
    }
    out
}

// ---------------------------------------------------------------------------
// Condition evaluation
// ---------------------------------------------------------------------------

/// Is the token one of the six numeric comparison operators?
pub open spec fn is_numeric_operator(op: Seq<char>) -> bool {
    op == "=="@ || op == "!="@ || op == ">"@ || op == "<"@ || op == ">="@ || op == "<="@
}

/// What a condition evaluates to. The comparison family is chosen by
/// the operator token alone: the `str_*` operators compare the operands
/// as text, the six relational operators as decimal numbers, and any
/// other token is an error naming the operator, whatever the operands
/// hold. Under a numeric operator, each operand must parse as a decimal
/// number, the first checked first.
pub open spec fn eval_condition_spec(op: Seq<char>, a: Seq<char>, b: Seq<char>) -> Result<
    bool,
    ErrModel,
> {
    if op == "str_equals"@ {
        Ok(a == b)
    } else if op == "str_not_equals"@ {
        Ok(a != b)
    } else if op == "str_contains"@ {
        Ok(contains_seq(a, b))
    } else if op == "str_not_contains"@ {
        Ok(!contains_seq(a, b))
    } else if op == "str_starts_with"@ {
        Ok(occurs_at(a, b, 0))
    } else if op == "str_ends_with"@ {
        Ok(b.len() <= a.len() && occurs_at(a, b, a.len() - b.len()))
    } else if op == "str_is_empty"@ {
        Ok(a.len() == 0)
    } else if op == "str_is_not_empty"@ {
        Ok(a.len() != 0)
    } else if is_numeric_operator(op) {
        match (parse_number_spec(a), parse_number_spec(b)) {
            (None, _) => Err(ErrModel::InvalidNumber { operand: a }),
            (_, None) => Err(ErrModel::InvalidNumber { operand: b }),
            (Some(x), Some(y)) => {
                if op == "=="@ {
                    Ok(num_eq(x, y))
                } else if op == "!="@ {
                    Ok(!num_eq(x, y))
                } else if op == ">"@ {
                    Ok(num_lt(y, x))
                } else if op == "<"@ {
                    Ok(num_lt(x, y))
                } else if op == ">="@ {
                    Ok(!num_lt(x, y))
                } else {
                    Ok(!num_lt(y, x))
                }
            },
        }
    } else {
        Err(ErrModel::UnknownOperation { operation: op })
    }
}

/// Evaluate one condition. The operator token alone picks the family:
/// `str_*` operators compare the resolved operands as text, the six
/// relational operators as exact decimal numbers, and a token outside
/// the recognized set is a fatal error naming the operator, whatever
/// the operands hold. Under a numeric operator, an operand that does
/// not parse is a fatal error naming that operand.
pub fn evaluate_condition(operation: &str, a: &str, b: &str) -> (r: Result<bool, EngineError>)
    ensures
        match eval_condition_spec(operation@, a@, b@) {
            Ok(v) => r matches Ok(x) && x == v,
            Err(e) => r matches Err(x) && x@ == e,
        },
{
    // String operations
    if str_eq(operation, "str_equals") {
        return Ok(str_eq(a, b));
    }
    if str_eq(operation, "str_not_equals") {
        return Ok(!str_eq(a, b));
    }
    if str_eq(operation, "str_contains") {
        return Ok(str_contains(a, b));
    }
    if str_eq(operation, "str_not_contains") {
        return Ok(!str_contains(a, b));
    }
    if str_eq(operation, "str_starts_with") {
        return Ok(str_starts_with(a, b));
    }
    if str_eq(operation, "str_ends_with") {
        return Ok(str_ends_with(a, b));
    }
    if str_eq(operation, "str_is_empty") {
        return Ok(a.unicode_len() == 0);
    }
    if str_eq(operation, "str_is_not_empty") {
        return Ok(a.unicode_len() != 0);
    }
    // Numeric operations: recognize the operator token first
    let is_eq = str_eq(operation, "==");
    let is_ne = str_eq(operation, "!=");
    let is_gt = str_eq(operation, ">");
    let is_lt = str_eq(operation, "<");
    let is_ge = str_eq(operation, ">=");
    let is_le = str_eq(operation, "<=");
    if !(is_eq || is_ne || is_gt || is_lt || is_ge || is_le) {
        return Err(EngineError::UnknownOperation { operation: String::from_str(operation) });
    }
    let pa = match parse_number(a) {
        Some(p) => p,
        None => {
            return Err(EngineError::InvalidNumber { operand: String::from_str(a) });
        },
    };
    let pb = match parse_number(b) {
        Some(p) => p,
        None => {
            return Err(EngineError::InvalidNumber { operand: String::from_str(b) });
        },
    };
    let ord = compare_numbers(&pa, &pb);
    if is_eq {
        Ok(matches!(ord, NumOrder::Equal))
    } else if is_ne {
        Ok(!matches!(ord, NumOrder::Equal))
    } else if is_gt {
        Ok(matches!(ord, NumOrder::Greater))
    } else if is_lt {
        Ok(matches!(ord, NumOrder::Less))
    } else if is_ge {
        Ok(!matches!(ord, NumOrder::Less))
    } else {
        Ok(!matches!(ord, NumOrder::Greater))
    }
}

// ---------------------------------------------------------------------------
// Operator and comparison vocabulary
// ---------------------------------------------------------------------------

/// The numeric comparison operators.
#[derive(Clone, Copy, Debug)]
pub enum NumberOperator {
    Equal,
    NotEqual,
    LessThan,
    LessThanOrEqual,
    GreaterThan,
    GreaterThanOrEqual,
}

impl NumberOperator {
    /// The token that names this operator.
    pub open spec fn token(self) -> Seq<char> {
        match self {
            NumberOperator::Equal => "=="@,
            NumberOperator::NotEqual => "!="@,
            NumberOperator::LessThan => "<"@,
            NumberOperator::LessThanOrEqual => "<="@,
            NumberOperator::GreaterThan => ">"@,
            NumberOperator::GreaterThanOrEqual => ">="@,
        }
    }

    /// The operator named by a token; the token must be one of the six.
    pub fn from(s: &str) -> (r: NumberOperator)
        requires
            s@ == "=="@ || s@ == "!="@ || s@ == "<"@ || s@ == "<="@ || s@ == ">"@ || s@ == ">="@,
        ensures
            r.token() == s@,
    {
        if str_eq(s, "==") {
            NumberOperator::Equal
        } else if str_eq(s, "!=") {
            NumberOperator::NotEqual
        } else if str_eq(s, "<") {
            NumberOperator::LessThan
        } else if str_eq(s, "<=") {
            NumberOperator::LessThanOrEqual
        } else if str_eq(s, ">") {
            NumberOperator::GreaterThan
        } else {
            NumberOperator::GreaterThanOrEqual
        }
    }

    /// The token that names this operator.
    pub fn to_string(&self) -> (r: String)
        ensures
            r@ == self.token(),
    {
        match self {
            NumberOperator::Equal => String::from_str("=="),
            NumberOperator::NotEqual => String::from_str("!="),
            NumberOperator::LessThan => String::from_str("<"),
            NumberOperator::LessThanOrEqual => String::from_str("<="),
            NumberOperator::GreaterThan => String::from_str(">"),
            NumberOperator::GreaterThanOrEqual => String::from_str(">="),
        }
    }
}

/// The text comparison operators.
#[derive(Clone, Copy, Debug)]
pub enum StringOperator {
    Equals,
    NotEquals,
    Contains,
    NotContains,
    StartsWith,
    EndsWith,
    IsEmpty,
    IsNotEmpty,
}

impl StringOperator {
    /// The token that names this operator.
    pub open spec fn token(self) -> Seq<char> {
        match self {
            StringOperator::Equals => "string_equals"@,
            StringOperator::NotEquals => "string_not_equals"@,
            StringOperator::Contains => "string_contains"@,
            StringOperator::NotContains => "string_not_contains"@,
            StringOperator::StartsWith => "string_starts_with"@,
            StringOperator::EndsWith => "string_ends_with"@,
            StringOperator::IsEmpty => "string_is_empty"@,
            StringOperator::IsNotEmpty => "string_is_not_empty"@,
        }
    }

    /// The operator named by a token; the token must be one of the eight.
    pub fn from(s: &str) -> (r: StringOperator)
        requires
            s@ == "string_equals"@ || s@ == "string_not_equals"@ || s@ == "string_contains"@ || s@
                == "string_not_contains"@ || s@ == "string_starts_with"@ || s@
                == "string_ends_with"@ || s@ == "string_is_empty"@ || s@ == "string_is_not_empty"@,
        ensures
            r.token() == s@,
    {
        if str_eq(s, "string_equals") {
            StringOperator::Equals
        } else if str_eq(s, "string_not_equals") {
            StringOperator::NotEquals
        } else if str_eq(s, "string_contains") {
            StringOperator::Contains
        } else if str_eq(s, "string_not_contains") {
            StringOperator::NotContains
        } else if str_eq(s, "string_starts_with") {
            StringOperator::StartsWith
        } else if str_eq(s, "string_ends_with") {
            StringOperator::EndsWith
        } else if str_eq(s, "string_is_empty") {
            StringOperator::IsEmpty
        } else {
            StringOperator::IsNotEmpty
        }
    }

    /// The token that names this operator.
    pub fn to_string(&self) -> (r: String)
        ensures
            r@ == self.token(),
    {
        match self {
            StringOperator::Equals => String::from_str("string_equals"),
            StringOperator::NotEquals => String::from_str("string_not_equals"),
            StringOperator::Contains => String::from_str("string_contains"),
            StringOperator::NotContains => String::from_str("string_not_contains"),
            StringOperator::StartsWith => String::from_str("string_starts_with"),
            StringOperator::EndsWith => String::from_str("string_ends_with"),
            StringOperator::IsEmpty => String::from_str("string_is_empty"),
            StringOperator::IsNotEmpty => String::from_str("string_is_not_empty"),
        }
    }
}

/// A text comparison with its operands.
#[derive(Clone, Debug)]
pub enum StringComparison {
    Equals { a: String, b: String },
    NotEquals { a: String, b: String },
    Contains { a: String, b: String },
    NotContains { a: String, b: String },
    StartsWith { a: String, b: String },
    EndsWith { a: String, b: String },
    IsEmpty { a: String },
    IsNotEmpty { a: String },
}

impl StringComparison {
    /// The comparison's truth value, over the operand texts.
    pub fn evaluate(&self) -> (r: bool)
        ensures
            r == match self {
                StringComparison::Equals { a, b } => a@ == b@,
                StringComparison::NotEquals { a, b } => a@ != b@,
                StringComparison::Contains { a, b } => contains_seq(a@, b@),
                StringComparison::NotContains { a, b } => !contains_seq(a@, b@),
                StringComparison::StartsWith { a, b } => occurs_at(a@, b@, 0),
                StringComparison::EndsWith { a, b } => b@.len() <= a@.len() && occurs_at(
                    a@,
                    b@,
                    a@.len() - b@.len(),
                ),
                StringComparison::IsEmpty { a } => a@.len() == 0,
                StringComparison::IsNotEmpty { a } => a@.len() != 0,
            },
    {
        match self {
            StringComparison::Equals { a, b } => str_eq(a.as_str(), b.as_str()),
            StringComparison::NotEquals { a, b } => !str_eq(a.as_str(), b.as_str()),
            StringComparison::Contains { a, b } => str_contains(a.as_str(), b.as_str()),
            StringComparison::NotContains { a, b } => !str_contains(a.as_str(), b.as_str()),
            StringComparison::StartsWith { a, b } => str_starts_with(a.as_str(), b.as_str()),
            StringComparison::EndsWith { a, b } => str_ends_with(a.as_str(), b.as_str()),
            StringComparison::IsEmpty { a } => a.as_str().unicode_len() == 0,
            StringComparison::IsNotEmpty { a } => a.as_str().unicode_len() != 0,
        }
    }

    /// Flatten the comparison to its operator token and operand texts;
    /// the one-operand forms leave the second text empty.
    pub fn to_serialized(self) -> (r: SerializedComparison)
        ensures
            match self {
                StringComparison::Equals { a, b } => r.operation@ == "string_equals"@ && r.a@
                    == a@ && r.b@ == b@,
                StringComparison::NotEquals { a, b } => r.operation@ == "string_not_equals"@
                    && r.a@ == a@ && r.b@ == b@,
                StringComparison::Contains { a, b } => r.operation@ == "string_contains"@ && r.a@
                    == a@ && r.b@ == b@,
                StringComparison::NotContains { a, b } => r.operation@ == "string_not_contains"@
                    && r.a@ == a@ && r.b@ == b@,
                StringComparison::StartsWith { a, b } => r.operation@ == "string_starts_with"@
                    && r.a@ == a@ && r.b@ == b@,
                StringComparison::EndsWith { a, b } => r.operation@ == "string_ends_with"@ && r.a@
                    == a@ && r.b@ == b@,
                StringComparison::IsEmpty { a } => r.operation@ == "string_is_empty"@ && r.a@ == a@
                    && r.b@.len() == 0,
                StringComparison::IsNotEmpty { a } => r.operation@ == "string_is_not_empty"@
                    && r.a@ == a@ && r.b@.len() == 0,
            },
    {
        match self {
            StringComparison::Equals { a, b } => SerializedComparison {
                operation: String::from_str("string_equals"),
                a,
                b,
            },
            StringComparison::NotEquals { a, b } => SerializedComparison {
                operation: String::from_str("string_not_equals"),
                a,
                b,
            },
            StringComparison::Contains { a, b } => SerializedComparison {
                operation: String::from_str("string_contains"),
                a,
                b,
            },
            StringComparison::NotContains { a, b } => SerializedComparison {
                operation: String::from_str("string_not_contains"),
                a,
                b,
            },
            StringComparison::StartsWith { a, b } => SerializedComparison {
                operation: String::from_str("string_starts_with"),
                a,
                b,
            },
            StringComparison::EndsWith { a, b } => SerializedComparison {
                operation: String::from_str("string_ends_with"),
                a,
                b,
            },
            StringComparison::IsEmpty { a } => SerializedComparison {
                operation: String::from_str("string_is_empty"),
                a,
                b: String::new(),
            },
            StringComparison::IsNotEmpty { a } => SerializedComparison {
                operation: String::from_str("string_is_not_empty"),
                a,
                b: String::new(),
            },
        }
    }
}

/// A comparison flattened to its operator token and operand texts.
pub struct SerializedComparison {
    pub operation: String,
    pub a: String,
    pub b: String,
}

} // verus!
