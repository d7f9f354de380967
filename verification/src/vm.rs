//! The virtual machine: a single-threaded cooperative interpreter over a
//! compiled program. It executes instructions until it reaches a
//! suspension point — a line, an option set, a command, or the end of a
//! node — and returns the events produced so far; the host is the
//! scheduler and resumes it.
//!
//! Built-in functions (the ones operators are lowered to) are implemented
//! here; all other functions are dispatched to the host through the
//! `HostFunctions` trait.

use vstd::prelude::*;
use crate::collections::Stack;
use crate::library::Library;
use crate::program::{Instruction, Program};
use crate::storage::MemoryVariableStore;
use crate::text::{push_char, str_eq, str_to_chars};
use crate::value::{Value, value_bool, value_eq, value_number_fit, value_text};

verus! {

broadcast use vstd::std_specs::vec::group_vec_axioms;

/// Where the machine stands.
#[derive(Clone, Copy, Debug, PartialEq, Eq, Structural)]
pub enum ExecutionState {
    /// Not running: before `start` and after the dialogue completes.
    Stopped,
    /// An option set was delivered; a selection must come next.
    WaitingOnOptionSelection,
    /// A command was delivered; the next `continue` resumes.
    WaitingForContinue,
    /// A line was delivered; the next `continue` resumes.
    DeliveringContent,
    /// Executing instructions.
    Running,
}

/// A runtime or API error of the machine.
#[derive(Clone, Copy, Debug, PartialEq, Eq, Structural)]
pub enum RuntimeError {
    /// A jump or `start` names a node the program does not hold.
    UnknownNode,
    /// An instruction needed more values than the stack holds; a code
    /// generation bug, fatal.
    StackUnderflow,
    /// A called function is neither built in nor registered.
    FunctionNotFound,
    /// A value did not fit the type an operation needs.
    TypeMismatch,
    /// An option was selected past the delivered set.
    IndexOutOfRange,
    /// An option was selected while none are delivered.
    NoOptions,
    /// `continue` before `start`.
    NotStarted,
    /// `continue` after the dialogue completed.
    AlreadyComplete,
    /// A jump instruction did not move forward; cooperative execution
    /// demands forward progress inside a node, and generated code only
    /// jumps forward.
    InvalidJump,
    /// `continue` while an option set waits for a selection.
    OptionSelectionPending,
}

/// One delivered option of an option set.
#[derive(Debug)]
pub struct DialogueOption {
    /// The key of the option's line in the string table.
    pub line_id: String,
    /// Where execution goes when the option is selected.
    pub destination: usize,
    /// Whether the option's condition held; disabled options are shown but
    /// cannot be selected by convention.
    pub enabled: bool,
    /// The evaluated substitution values of the option's line.
    pub substitutions: Vec<Value>,
}

/// An event surfaced to the host.
#[derive(Debug)]
pub enum DialogueEvent {
    /// A node began.
    NodeStart(String),
    /// A line is ready: its id and its substitution values, in order.
    LineReady(String, Vec<Value>),
    /// An option set is ready; a selection must come next.
    OptionsReady(Vec<DialogueOption>),
    /// A command is ready: its text with substitutions already formatted
    /// in.
    CommandReady(String),
    /// The current node ended.
    NodeComplete(String),
    /// The dialogue ended.
    DialogueComplete,
}

/// What the host provides: the functions scripts may call. A return of
/// `None` means the host knows no function by that name.
pub trait HostFunctions {
    /// Calls the named function with the given parameters.
    fn call_function(&mut self, name: &str, parameters: Vec<Value>) -> Option<Value>;
}

/// Clamps a mathematical integer into the machine word.
pub open spec fn sat_i64(x: int) -> i64 {
    if x > i64::MAX {
        i64::MAX
    } else if x < i64::MIN {
        i64::MIN
    } else {
        x as i64
    }
}

/// Truncated division, as the machine's division behaves, for a nonzero
/// divisor.
pub open spec fn trunc_div(x: int, d: int) -> int {
    if x == 0 {
        0
    } else if x > 0 && d > 0 {
        x / d
    } else if x < 0 && d < 0 {
        (x * -1) / (d * -1)
    } else if x < 0 {
        ((x * -1) / d) * -1
    } else {
        (x / (d * -1)) * -1
    }
}

/// Truncated remainder, as the machine's remainder behaves, for a nonzero
/// divisor.
pub open spec fn trunc_rem(x: int, d: int) -> int {
    if x == 0 {
        0
    } else if x > 0 && d > 0 {
        x % d
    } else if x < 0 && d < 0 {
        ((x * -1) % (d * -1)) * -1
    } else if x < 0 {
        ((x * -1) % d) * -1
    } else {
        x % (d * -1)
    }
}

/// The number of arguments a built-in function takes, or `None` for a name
/// that is not built in.
pub open spec fn builtin_arity(name: Seq<char>) -> Option<int> {
    if name == "Number.UnaryMinus"@ || name == "Bool.Not"@ {
        Some(1int)
    } else if name == "Number.Add"@ || name == "Number.Subtract"@ || name == "Number.Multiply"@
        || name == "Number.Divide"@ || name == "Number.Modulo"@ || name == "Number.EqualTo"@
        || name == "Number.NotEqualTo"@ || name == "Number.LessThan"@
        || name == "Number.LessThanOrEqualTo"@ || name == "Number.GreaterThan"@
        || name == "Number.GreaterThanOrEqualTo"@ || name == "String.Concat"@
        || name == "String.EqualTo"@ || name == "String.NotEqualTo"@ || name == "Bool.EqualTo"@
        || name == "Bool.NotEqualTo"@ || name == "Bool.And"@ || name == "Bool.Or"@
        || name == "Value.EqualTo"@ || name == "Value.NotEqualTo"@ {
        Some(2int)
    } else {
        None
    }
}

/// The numeric readings of a built-in's two arguments, where both have one.
pub open spec fn num2(args: Seq<Value>) -> Option<(i64, i64)> {
    match (value_number_fit(args[0]), value_number_fit(args[1])) {
        (Some(a), Some(b)) => Some((a, b)),
        _ => None,
    }
}

/// The boolean readings of a built-in's two arguments, where both have one.
pub open spec fn bool2(args: Seq<Value>) -> Option<(bool, bool)> {
    match (value_bool(args[0]), value_bool(args[1])) {
        (Some(a), Some(b)) => Some((a, b)),
        _ => None,
    }
}

/// What a built-in function returns: the full semantics of every operator
/// of the language, for arguments matching the built-in's arity.
///
/// Numeric arguments are read with the language's conversions (booleans as
/// zero and one, text parsed); an argument with no reading is a
/// `TypeMismatch`. Sums, differences and products saturate at the word's
/// range; division and remainder by zero yield zero.
pub open spec fn builtin_rel(name: Seq<char>, args: Seq<Value>, r: Result<
    Value,
    RuntimeError,
>) -> bool {
    if name == "Number.Add"@ {
        match num2(args) {
            Some((a, b)) => r == Result::<Value, RuntimeError>::Ok(
                Value::Number(sat_i64(a + b)),
            ),
            None => r == Result::<Value, RuntimeError>::Err(RuntimeError::TypeMismatch),
        }
    } else if name == "Number.Subtract"@ {
        match num2(args) {
            Some((a, b)) => r == Result::<Value, RuntimeError>::Ok(
                Value::Number(sat_i64(a - b)),
            ),
            None => r == Result::<Value, RuntimeError>::Err(RuntimeError::TypeMismatch),
        }
    } else if name == "Number.Multiply"@ {
        match num2(args) {
            Some((a, b)) => r == Result::<Value, RuntimeError>::Ok(
                Value::Number(sat_i64(a * b)),
            ),
            None => r == Result::<Value, RuntimeError>::Err(RuntimeError::TypeMismatch),
        }
    } else if name == "Number.Divide"@ {
        match num2(args) {
            Some((a, b)) => r == Result::<Value, RuntimeError>::Ok(
                Value::Number(
                    if b == 0 {
                        0i64
                    } else {
                        sat_i64(trunc_div(a as int, b as int))
                    },
                ),
            ),
            None => r == Result::<Value, RuntimeError>::Err(RuntimeError::TypeMismatch),
        }
    } else if name == "Number.Modulo"@ {
        match num2(args) {
            Some((a, b)) => r == Result::<Value, RuntimeError>::Ok(
                Value::Number(
                    if b == 0 {
                        0i64
                    } else {
                        sat_i64(trunc_rem(a as int, b as int))
                    },
                ),
            ),
            None => r == Result::<Value, RuntimeError>::Err(RuntimeError::TypeMismatch),
        }
    } else if name == "Number.UnaryMinus"@ {
        match value_number_fit(args[0]) {
            Some(a) => r == Result::<Value, RuntimeError>::Ok(
                Value::Number(sat_i64(-(a as int))),
            ),
            None => r == Result::<Value, RuntimeError>::Err(RuntimeError::TypeMismatch),
        }
    } else if name == "Number.EqualTo"@ {
        match num2(args) {
            Some((a, b)) => r == Result::<Value, RuntimeError>::Ok(Value::Boolean(a == b)),
            None => r == Result::<Value, RuntimeError>::Err(RuntimeError::TypeMismatch),
        }
    } else if name == "Number.NotEqualTo"@ {
        match num2(args) {
            Some((a, b)) => r == Result::<Value, RuntimeError>::Ok(Value::Boolean(a != b)),
            None => r == Result::<Value, RuntimeError>::Err(RuntimeError::TypeMismatch),
        }
    } else if name == "Number.LessThan"@ {
        match num2(args) {
            Some((a, b)) => r == Result::<Value, RuntimeError>::Ok(Value::Boolean(a < b)),
            None => r == Result::<Value, RuntimeError>::Err(RuntimeError::TypeMismatch),
        }
    } else if name == "Number.LessThanOrEqualTo"@ {
        match num2(args) {
            Some((a, b)) => r == Result::<Value, RuntimeError>::Ok(Value::Boolean(a <= b)),
            None => r == Result::<Value, RuntimeError>::Err(RuntimeError::TypeMismatch),
        }
    } else if name == "Number.GreaterThan"@ {
        match num2(args) {
            Some((a, b)) => r == Result::<Value, RuntimeError>::Ok(Value::Boolean(a > b)),
            None => r == Result::<Value, RuntimeError>::Err(RuntimeError::TypeMismatch),
        }
    } else if name == "Number.GreaterThanOrEqualTo"@ {
        match num2(args) {
            Some((a, b)) => r == Result::<Value, RuntimeError>::Ok(Value::Boolean(a >= b)),
            None => r == Result::<Value, RuntimeError>::Err(RuntimeError::TypeMismatch),
        }
    } else if name == "String.Concat"@ {
        r matches Result::<Value, RuntimeError>::Ok(Value::Text(s)) && s@ == value_text(args[0])
            + value_text(args[1])
    } else if name == "String.EqualTo"@ {
        r == Result::<Value, RuntimeError>::Ok(
            Value::Boolean(value_text(args[0]) == value_text(args[1])),
        )
    } else if name == "String.NotEqualTo"@ {
        r == Result::<Value, RuntimeError>::Ok(
            Value::Boolean(value_text(args[0]) != value_text(args[1])),
        )
    } else if name == "Bool.And"@ {
        match bool2(args) {
            Some((a, b)) => r == Result::<Value, RuntimeError>::Ok(Value::Boolean(a && b)),
            None => r == Result::<Value, RuntimeError>::Err(RuntimeError::TypeMismatch),
        }
    } else if name == "Bool.Or"@ {
        match bool2(args) {
            Some((a, b)) => r == Result::<Value, RuntimeError>::Ok(Value::Boolean(a || b)),
            None => r == Result::<Value, RuntimeError>::Err(RuntimeError::TypeMismatch),
        }
    } else if name == "Bool.Not"@ {
        match value_bool(args[0]) {
            Some(a) => r == Result::<Value, RuntimeError>::Ok(Value::Boolean(!a)),
            None => r == Result::<Value, RuntimeError>::Err(RuntimeError::TypeMismatch),
        }
    } else if name == "Bool.EqualTo"@ {
        match bool2(args) {
            Some((a, b)) => r == Result::<Value, RuntimeError>::Ok(Value::Boolean(a == b)),
            None => r == Result::<Value, RuntimeError>::Err(RuntimeError::TypeMismatch),
        }
    } else if name == "Bool.NotEqualTo"@ {
        match bool2(args) {
            Some((a, b)) => r == Result::<Value, RuntimeError>::Ok(Value::Boolean(a != b)),
            None => r == Result::<Value, RuntimeError>::Err(RuntimeError::TypeMismatch),
        }
    } else if name == "Value.EqualTo"@ {
        r == Result::<Value, RuntimeError>::Ok(Value::Boolean(value_eq(args[0], args[1])))
    } else if name == "Value.NotEqualTo"@ {
        r == Result::<Value, RuntimeError>::Ok(Value::Boolean(!value_eq(args[0], args[1])))
    } else {
        true
    }
}

/// The built-in function names are pairwise distinct.
#[verifier::rlimit(100)]
proof fn lemma_builtin_names_distinct()
    ensures
        "Number.Add"@ != "Number.Subtract"@,
        "Number.Add"@ != "Number.Multiply"@,
        "Number.Add"@ != "Number.Divide"@,
        "Number.Add"@ != "Number.Modulo"@,
        "Number.Add"@ != "Number.UnaryMinus"@,
        "Number.Add"@ != "Number.EqualTo"@,
        "Number.Add"@ != "Number.NotEqualTo"@,
        "Number.Add"@ != "Number.LessThan"@,
        "Number.Add"@ != "Number.LessThanOrEqualTo"@,
        "Number.Add"@ != "Number.GreaterThan"@,
        "Number.Add"@ != "Number.GreaterThanOrEqualTo"@,
        "Number.Add"@ != "String.Concat"@,
        "Number.Add"@ != "String.EqualTo"@,
        "Number.Add"@ != "String.NotEqualTo"@,
        "Number.Add"@ != "Bool.And"@,
        "Number.Add"@ != "Bool.Or"@,
        "Number.Add"@ != "Bool.Not"@,
        "Number.Add"@ != "Bool.EqualTo"@,
        "Number.Add"@ != "Bool.NotEqualTo"@,
        "Number.Add"@ != "Value.EqualTo"@,
        "Number.Add"@ != "Value.NotEqualTo"@,
        "Number.Subtract"@ != "Number.Multiply"@,
        "Number.Subtract"@ != "Number.Divide"@,
        "Number.Subtract"@ != "Number.Modulo"@,
        "Number.Subtract"@ != "Number.UnaryMinus"@,
        "Number.Subtract"@ != "Number.EqualTo"@,
        "Number.Subtract"@ != "Number.NotEqualTo"@,
        "Number.Subtract"@ != "Number.LessThan"@,
        "Number.Subtract"@ != "Number.LessThanOrEqualTo"@,
        "Number.Subtract"@ != "Number.GreaterThan"@,
        "Number.Subtract"@ != "Number.GreaterThanOrEqualTo"@,
        "Number.Subtract"@ != "String.Concat"@,
        "Number.Subtract"@ != "String.EqualTo"@,
        "Number.Subtract"@ != "String.NotEqualTo"@,
        "Number.Subtract"@ != "Bool.And"@,
        "Number.Subtract"@ != "Bool.Or"@,
        "Number.Subtract"@ != "Bool.Not"@,
        "Number.Subtract"@ != "Bool.EqualTo"@,
        "Number.Subtract"@ != "Bool.NotEqualTo"@,
        "Number.Subtract"@ != "Value.EqualTo"@,
        "Number.Subtract"@ != "Value.NotEqualTo"@,
        "Number.Multiply"@ != "Number.Divide"@,
        "Number.Multiply"@ != "Number.Modulo"@,
        "Number.Multiply"@ != "Number.UnaryMinus"@,
        "Number.Multiply"@ != "Number.EqualTo"@,
        "Number.Multiply"@ != "Number.NotEqualTo"@,
        "Number.Multiply"@ != "Number.LessThan"@,
        "Number.Multiply"@ != "Number.LessThanOrEqualTo"@,
        "Number.Multiply"@ != "Number.GreaterThan"@,
        "Number.Multiply"@ != "Number.GreaterThanOrEqualTo"@,
        "Number.Multiply"@ != "String.Concat"@,
        "Number.Multiply"@ != "String.EqualTo"@,
        "Number.Multiply"@ != "String.NotEqualTo"@,
        "Number.Multiply"@ != "Bool.And"@,
        "Number.Multiply"@ != "Bool.Or"@,
        "Number.Multiply"@ != "Bool.Not"@,
        "Number.Multiply"@ != "Bool.EqualTo"@,
        "Number.Multiply"@ != "Bool.NotEqualTo"@,
        "Number.Multiply"@ != "Value.EqualTo"@,
        "Number.Multiply"@ != "Value.NotEqualTo"@,
        "Number.Divide"@ != "Number.Modulo"@,
        "Number.Divide"@ != "Number.UnaryMinus"@,
        "Number.Divide"@ != "Number.EqualTo"@,
        "Number.Divide"@ != "Number.NotEqualTo"@,
        "Number.Divide"@ != "Number.LessThan"@,
        "Number.Divide"@ != "Number.LessThanOrEqualTo"@,
        "Number.Divide"@ != "Number.GreaterThan"@,
        "Number.Divide"@ != "Number.GreaterThanOrEqualTo"@,
        "Number.Divide"@ != "String.Concat"@,
        "Number.Divide"@ != "String.EqualTo"@,
        "Number.Divide"@ != "String.NotEqualTo"@,
        "Number.Divide"@ != "Bool.And"@,
        "Number.Divide"@ != "Bool.Or"@,
        "Number.Divide"@ != "Bool.Not"@,
        "Number.Divide"@ != "Bool.EqualTo"@,
        "Number.Divide"@ != "Bool.NotEqualTo"@,
        "Number.Divide"@ != "Value.EqualTo"@,
        "Number.Divide"@ != "Value.NotEqualTo"@,
        "Number.Modulo"@ != "Number.UnaryMinus"@,
        "Number.Modulo"@ != "Number.EqualTo"@,
        "Number.Modulo"@ != "Number.NotEqualTo"@,
        "Number.Modulo"@ != "Number.LessThan"@,
        "Number.Modulo"@ != "Number.LessThanOrEqualTo"@,
        "Number.Modulo"@ != "Number.GreaterThan"@,
        "Number.Modulo"@ != "Number.GreaterThanOrEqualTo"@,
        "Number.Modulo"@ != "String.Concat"@,
        "Number.Modulo"@ != "String.EqualTo"@,
        "Number.Modulo"@ != "String.NotEqualTo"@,
        "Number.Modulo"@ != "Bool.And"@,
        "Number.Modulo"@ != "Bool.Or"@,
        "Number.Modulo"@ != "Bool.Not"@,
        "Number.Modulo"@ != "Bool.EqualTo"@,
        "Number.Modulo"@ != "Bool.NotEqualTo"@,
        "Number.Modulo"@ != "Value.EqualTo"@,
        "Number.Modulo"@ != "Value.NotEqualTo"@,
        "Number.UnaryMinus"@ != "Number.EqualTo"@,
        "Number.UnaryMinus"@ != "Number.NotEqualTo"@,
        "Number.UnaryMinus"@ != "Number.LessThan"@,
        "Number.UnaryMinus"@ != "Number.LessThanOrEqualTo"@,
        "Number.UnaryMinus"@ != "Number.GreaterThan"@,
        "Number.UnaryMinus"@ != "Number.GreaterThanOrEqualTo"@,
        "Number.UnaryMinus"@ != "String.Concat"@,
        "Number.UnaryMinus"@ != "String.EqualTo"@,
        "Number.UnaryMinus"@ != "String.NotEqualTo"@,
        "Number.UnaryMinus"@ != "Bool.And"@,
        "Number.UnaryMinus"@ != "Bool.Or"@,
        "Number.UnaryMinus"@ != "Bool.Not"@,
        "Number.UnaryMinus"@ != "Bool.EqualTo"@,
        "Number.UnaryMinus"@ != "Bool.NotEqualTo"@,
        "Number.UnaryMinus"@ != "Value.EqualTo"@,
        "Number.UnaryMinus"@ != "Value.NotEqualTo"@,
        "Number.EqualTo"@ != "Number.NotEqualTo"@,
        "Number.EqualTo"@ != "Number.LessThan"@,
        "Number.EqualTo"@ != "Number.LessThanOrEqualTo"@,
        "Number.EqualTo"@ != "Number.GreaterThan"@,
        "Number.EqualTo"@ != "Number.GreaterThanOrEqualTo"@,
        "Number.EqualTo"@ != "String.Concat"@,
        "Number.EqualTo"@ != "String.EqualTo"@,
        "Number.EqualTo"@ != "String.NotEqualTo"@,
        "Number.EqualTo"@ != "Bool.And"@,
        "Number.EqualTo"@ != "Bool.Or"@,
        "Number.EqualTo"@ != "Bool.Not"@,
        "Number.EqualTo"@ != "Bool.EqualTo"@,
        "Number.EqualTo"@ != "Bool.NotEqualTo"@,
        "Number.EqualTo"@ != "Value.EqualTo"@,
        "Number.EqualTo"@ != "Value.NotEqualTo"@,
        "Number.NotEqualTo"@ != "Number.LessThan"@,
        "Number.NotEqualTo"@ != "Number.LessThanOrEqualTo"@,
        "Number.NotEqualTo"@ != "Number.GreaterThan"@,
        "Number.NotEqualTo"@ != "Number.GreaterThanOrEqualTo"@,
        "Number.NotEqualTo"@ != "String.Concat"@,
        "Number.NotEqualTo"@ != "String.EqualTo"@,
        "Number.NotEqualTo"@ != "String.NotEqualTo"@,
        "Number.NotEqualTo"@ != "Bool.And"@,
        "Number.NotEqualTo"@ != "Bool.Or"@,
        "Number.NotEqualTo"@ != "Bool.Not"@,
        "Number.NotEqualTo"@ != "Bool.EqualTo"@,
        "Number.NotEqualTo"@ != "Bool.NotEqualTo"@,
        "Number.NotEqualTo"@ != "Value.EqualTo"@,
        "Number.NotEqualTo"@ != "Value.NotEqualTo"@,
        "Number.LessThan"@ != "Number.LessThanOrEqualTo"@,
        "Number.LessThan"@ != "Number.GreaterThan"@,
        "Number.LessThan"@ != "Number.GreaterThanOrEqualTo"@,
        "Number.LessThan"@ != "String.Concat"@,
        "Number.LessThan"@ != "String.EqualTo"@,
        "Number.LessThan"@ != "String.NotEqualTo"@,
        "Number.LessThan"@ != "Bool.And"@,
        "Number.LessThan"@ != "Bool.Or"@,
        "Number.LessThan"@ != "Bool.Not"@,
        "Number.LessThan"@ != "Bool.EqualTo"@,
        "Number.LessThan"@ != "Bool.NotEqualTo"@,
        "Number.LessThan"@ != "Value.EqualTo"@,
        "Number.LessThan"@ != "Value.NotEqualTo"@,
        "Number.LessThanOrEqualTo"@ != "Number.GreaterThan"@,
        "Number.LessThanOrEqualTo"@ != "Number.GreaterThanOrEqualTo"@,
        "Number.LessThanOrEqualTo"@ != "String.Concat"@,
        "Number.LessThanOrEqualTo"@ != "String.EqualTo"@,
        "Number.LessThanOrEqualTo"@ != "String.NotEqualTo"@,
        "Number.LessThanOrEqualTo"@ != "Bool.And"@,
        "Number.LessThanOrEqualTo"@ != "Bool.Or"@,
        "Number.LessThanOrEqualTo"@ != "Bool.Not"@,
        "Number.LessThanOrEqualTo"@ != "Bool.EqualTo"@,
        "Number.LessThanOrEqualTo"@ != "Bool.NotEqualTo"@,
        "Number.LessThanOrEqualTo"@ != "Value.EqualTo"@,
        "Number.LessThanOrEqualTo"@ != "Value.NotEqualTo"@,
        "Number.GreaterThan"@ != "Number.GreaterThanOrEqualTo"@,
        "Number.GreaterThan"@ != "String.Concat"@,
        "Number.GreaterThan"@ != "String.EqualTo"@,
        "Number.GreaterThan"@ != "String.NotEqualTo"@,
        "Number.GreaterThan"@ != "Bool.And"@,
        "Number.GreaterThan"@ != "Bool.Or"@,
        "Number.GreaterThan"@ != "Bool.Not"@,
        "Number.GreaterThan"@ != "Bool.EqualTo"@,
        "Number.GreaterThan"@ != "Bool.NotEqualTo"@,
        "Number.GreaterThan"@ != "Value.EqualTo"@,
        "Number.GreaterThan"@ != "Value.NotEqualTo"@,
        "Number.GreaterThanOrEqualTo"@ != "String.Concat"@,
        "Number.GreaterThanOrEqualTo"@ != "String.EqualTo"@,
        "Number.GreaterThanOrEqualTo"@ != "String.NotEqualTo"@,
        "Number.GreaterThanOrEqualTo"@ != "Bool.And"@,
        "Number.GreaterThanOrEqualTo"@ != "Bool.Or"@,
        "Number.GreaterThanOrEqualTo"@ != "Bool.Not"@,
        "Number.GreaterThanOrEqualTo"@ != "Bool.EqualTo"@,
        "Number.GreaterThanOrEqualTo"@ != "Bool.NotEqualTo"@,
        "Number.GreaterThanOrEqualTo"@ != "Value.EqualTo"@,
        "Number.GreaterThanOrEqualTo"@ != "Value.NotEqualTo"@,
        "String.Concat"@ != "String.EqualTo"@,
        "String.Concat"@ != "String.NotEqualTo"@,
        "String.Concat"@ != "Bool.And"@,
        "String.Concat"@ != "Bool.Or"@,
        "String.Concat"@ != "Bool.Not"@,
        "String.Concat"@ != "Bool.EqualTo"@,
        "String.Concat"@ != "Bool.NotEqualTo"@,
        "String.Concat"@ != "Value.EqualTo"@,
        "String.Concat"@ != "Value.NotEqualTo"@,
        "String.EqualTo"@ != "String.NotEqualTo"@,
        "String.EqualTo"@ != "Bool.And"@,
        "String.EqualTo"@ != "Bool.Or"@,
        "String.EqualTo"@ != "Bool.Not"@,
        "String.EqualTo"@ != "Bool.EqualTo"@,
        "String.EqualTo"@ != "Bool.NotEqualTo"@,
        "String.EqualTo"@ != "Value.EqualTo"@,
        "String.EqualTo"@ != "Value.NotEqualTo"@,
        "String.NotEqualTo"@ != "Bool.And"@,
        "String.NotEqualTo"@ != "Bool.Or"@,
        "String.NotEqualTo"@ != "Bool.Not"@,
        "String.NotEqualTo"@ != "Bool.EqualTo"@,
        "String.NotEqualTo"@ != "Bool.NotEqualTo"@,
        "String.NotEqualTo"@ != "Value.EqualTo"@,
        "String.NotEqualTo"@ != "Value.NotEqualTo"@,
        "Bool.And"@ != "Bool.Or"@,
        "Bool.And"@ != "Bool.Not"@,
        "Bool.And"@ != "Bool.EqualTo"@,
        "Bool.And"@ != "Bool.NotEqualTo"@,
        "Bool.And"@ != "Value.EqualTo"@,
        "Bool.And"@ != "Value.NotEqualTo"@,
        "Bool.Or"@ != "Bool.Not"@,
        "Bool.Or"@ != "Bool.EqualTo"@,
        "Bool.Or"@ != "Bool.NotEqualTo"@,
        "Bool.Or"@ != "Value.EqualTo"@,
        "Bool.Or"@ != "Value.NotEqualTo"@,
        "Bool.Not"@ != "Bool.EqualTo"@,
        "Bool.Not"@ != "Bool.NotEqualTo"@,
        "Bool.Not"@ != "Value.EqualTo"@,
        "Bool.Not"@ != "Value.NotEqualTo"@,
        "Bool.EqualTo"@ != "Bool.NotEqualTo"@,
        "Bool.EqualTo"@ != "Value.EqualTo"@,
        "Bool.EqualTo"@ != "Value.NotEqualTo"@,
        "Bool.NotEqualTo"@ != "Value.EqualTo"@,
        "Bool.NotEqualTo"@ != "Value.NotEqualTo"@,
        "Value.EqualTo"@ != "Value.NotEqualTo"@,
{
    assert("Number.Add"@.len() == 10) by { reveal_strlit("Number.Add"); }
    assert("Number.Add"@[0] == 'N') by { reveal_strlit("Number.Add"); }
    assert("Number.Add"@[7] == 'A') by { reveal_strlit("Number.Add"); }
    assert("Number.Add"@[8] == 'd') by { reveal_strlit("Number.Add"); }
    assert("Number.Subtract"@.len() == 15) by { reveal_strlit("Number.Subtract"); }
    assert("Number.Subtract"@[0] == 'N') by { reveal_strlit("Number.Subtract"); }
    assert("Number.Subtract"@[7] == 'S') by { reveal_strlit("Number.Subtract"); }
    assert("Number.Subtract"@[8] == 'u') by { reveal_strlit("Number.Subtract"); }
    assert("Number.Multiply"@.len() == 15) by { reveal_strlit("Number.Multiply"); }
    assert("Number.Multiply"@[0] == 'N') by { reveal_strlit("Number.Multiply"); }
    assert("Number.Multiply"@[7] == 'M') by { reveal_strlit("Number.Multiply"); }
    assert("Number.Multiply"@[8] == 'u') by { reveal_strlit("Number.Multiply"); }
    assert("Number.Divide"@.len() == 13) by { reveal_strlit("Number.Divide"); }
    assert("Number.Divide"@[0] == 'N') by { reveal_strlit("Number.Divide"); }
    assert("Number.Divide"@[7] == 'D') by { reveal_strlit("Number.Divide"); }
    assert("Number.Divide"@[8] == 'i') by { reveal_strlit("Number.Divide"); }
    assert("Number.Modulo"@.len() == 13) by { reveal_strlit("Number.Modulo"); }
    assert("Number.Modulo"@[0] == 'N') by { reveal_strlit("Number.Modulo"); }
    assert("Number.Modulo"@[7] == 'M') by { reveal_strlit("Number.Modulo"); }
    assert("Number.Modulo"@[8] == 'o') by { reveal_strlit("Number.Modulo"); }
    assert("Number.UnaryMinus"@.len() == 17) by { reveal_strlit("Number.UnaryMinus"); }
    assert("Number.UnaryMinus"@[0] == 'N') by { reveal_strlit("Number.UnaryMinus"); }
    assert("Number.UnaryMinus"@[7] == 'U') by { reveal_strlit("Number.UnaryMinus"); }
    assert("Number.UnaryMinus"@[8] == 'n') by { reveal_strlit("Number.UnaryMinus"); }
    assert("Number.EqualTo"@.len() == 14) by { reveal_strlit("Number.EqualTo"); }
    assert("Number.EqualTo"@[0] == 'N') by { reveal_strlit("Number.EqualTo"); }
    assert("Number.EqualTo"@[7] == 'E') by { reveal_strlit("Number.EqualTo"); }
    assert("Number.EqualTo"@[8] == 'q') by { reveal_strlit("Number.EqualTo"); }
    assert("Number.NotEqualTo"@.len() == 17) by { reveal_strlit("Number.NotEqualTo"); }
    assert("Number.NotEqualTo"@[0] == 'N') by { reveal_strlit("Number.NotEqualTo"); }
    assert("Number.NotEqualTo"@[7] == 'N') by { reveal_strlit("Number.NotEqualTo"); }
    assert("Number.NotEqualTo"@[8] == 'o') by { reveal_strlit("Number.NotEqualTo"); }
    assert("Number.LessThan"@.len() == 15) by { reveal_strlit("Number.LessThan"); }
    assert("Number.LessThan"@[0] == 'N') by { reveal_strlit("Number.LessThan"); }
    assert("Number.LessThan"@[7] == 'L') by { reveal_strlit("Number.LessThan"); }
    assert("Number.LessThan"@[8] == 'e') by { reveal_strlit("Number.LessThan"); }
    assert("Number.LessThanOrEqualTo"@.len() == 24) by { reveal_strlit("Number.LessThanOrEqualTo"); }
    assert("Number.LessThanOrEqualTo"@[0] == 'N') by { reveal_strlit("Number.LessThanOrEqualTo"); }
    assert("Number.LessThanOrEqualTo"@[7] == 'L') by { reveal_strlit("Number.LessThanOrEqualTo"); }
    assert("Number.LessThanOrEqualTo"@[8] == 'e') by { reveal_strlit("Number.LessThanOrEqualTo"); }
    assert("Number.GreaterThan"@.len() == 18) by { reveal_strlit("Number.GreaterThan"); }
    assert("Number.GreaterThan"@[0] == 'N') by { reveal_strlit("Number.GreaterThan"); }
    assert("Number.GreaterThan"@[7] == 'G') by { reveal_strlit("Number.GreaterThan"); }
    assert("Number.GreaterThan"@[8] == 'r') by { reveal_strlit("Number.GreaterThan"); }
    assert("Number.GreaterThanOrEqualTo"@.len() == 27) by { reveal_strlit("Number.GreaterThanOrEqualTo"); }
    assert("Number.GreaterThanOrEqualTo"@[0] == 'N') by { reveal_strlit("Number.GreaterThanOrEqualTo"); }
    assert("Number.GreaterThanOrEqualTo"@[7] == 'G') by { reveal_strlit("Number.GreaterThanOrEqualTo"); }
    assert("Number.GreaterThanOrEqualTo"@[8] == 'r') by { reveal_strlit("Number.GreaterThanOrEqualTo"); }
    assert("String.Concat"@.len() == 13) by { reveal_strlit("String.Concat"); }
    assert("String.Concat"@[0] == 'S') by { reveal_strlit("String.Concat"); }
    assert("String.Concat"@[7] == 'C') by { reveal_strlit("String.Concat"); }
    assert("String.Concat"@[8] == 'o') by { reveal_strlit("String.Concat"); }
    assert("String.EqualTo"@.len() == 14) by { reveal_strlit("String.EqualTo"); }
    assert("String.EqualTo"@[0] == 'S') by { reveal_strlit("String.EqualTo"); }
    assert("String.EqualTo"@[7] == 'E') by { reveal_strlit("String.EqualTo"); }
    assert("String.EqualTo"@[8] == 'q') by { reveal_strlit("String.EqualTo"); }
    assert("String.NotEqualTo"@.len() == 17) by { reveal_strlit("String.NotEqualTo"); }
    assert("String.NotEqualTo"@[0] == 'S') by { reveal_strlit("String.NotEqualTo"); }
    assert("String.NotEqualTo"@[7] == 'N') by { reveal_strlit("String.NotEqualTo"); }
    assert("String.NotEqualTo"@[8] == 'o') by { reveal_strlit("String.NotEqualTo"); }
    assert("Bool.And"@.len() == 8) by { reveal_strlit("Bool.And"); }
    assert("Bool.And"@[0] == 'B') by { reveal_strlit("Bool.And"); }
    assert("Bool.And"@[7] == 'd') by { reveal_strlit("Bool.And"); }
    assert("Bool.Or"@.len() == 7) by { reveal_strlit("Bool.Or"); }
    assert("Bool.Or"@[0] == 'B') by { reveal_strlit("Bool.Or"); }
    assert("Bool.Not"@.len() == 8) by { reveal_strlit("Bool.Not"); }
    assert("Bool.Not"@[0] == 'B') by { reveal_strlit("Bool.Not"); }
    assert("Bool.Not"@[7] == 't') by { reveal_strlit("Bool.Not"); }
    assert("Bool.EqualTo"@.len() == 12) by { reveal_strlit("Bool.EqualTo"); }
    assert("Bool.EqualTo"@[0] == 'B') by { reveal_strlit("Bool.EqualTo"); }
    assert("Bool.EqualTo"@[7] == 'u') by { reveal_strlit("Bool.EqualTo"); }
    assert("Bool.EqualTo"@[8] == 'a') by { reveal_strlit("Bool.EqualTo"); }
    assert("Bool.NotEqualTo"@.len() == 15) by { reveal_strlit("Bool.NotEqualTo"); }
    assert("Bool.NotEqualTo"@[0] == 'B') by { reveal_strlit("Bool.NotEqualTo"); }
    assert("Bool.NotEqualTo"@[7] == 't') by { reveal_strlit("Bool.NotEqualTo"); }
    assert("Bool.NotEqualTo"@[8] == 'E') by { reveal_strlit("Bool.NotEqualTo"); }
    assert("Value.EqualTo"@.len() == 13) by { reveal_strlit("Value.EqualTo"); }
    assert("Value.EqualTo"@[0] == 'V') by { reveal_strlit("Value.EqualTo"); }
    assert("Value.EqualTo"@[7] == 'q') by { reveal_strlit("Value.EqualTo"); }
    assert("Value.EqualTo"@[8] == 'u') by { reveal_strlit("Value.EqualTo"); }
    assert("Value.NotEqualTo"@.len() == 16) by { reveal_strlit("Value.NotEqualTo"); }
    assert("Value.NotEqualTo"@[0] == 'V') by { reveal_strlit("Value.NotEqualTo"); }
    assert("Value.NotEqualTo"@[7] == 'o') by { reveal_strlit("Value.NotEqualTo"); }
    assert("Value.NotEqualTo"@[8] == 't') by { reveal_strlit("Value.NotEqualTo"); }
}

/// Law: a built-in call on arguments of the declared types never raises
/// `TypeMismatch`. With a compilation free of type errors, every operator
/// call the generated code makes is of this shape, so intra-script
/// operations cannot fail on types at run time.
#[verifier::rlimit(100)]
pub proof fn lemma_builtin_type_soundness(
    name: Seq<char>,
    args: Seq<Value>,
    r: Result<Value, RuntimeError>,
)
    requires
        builtin_arity(name) == Some(args.len() as int),
        builtin_rel(name, args, r),
        forall|i: int| 0 <= i < args.len() ==> !((#[trigger] args[i]) is Null),
        forall|i: int|
            0 <= i < args.len() ==> ((#[trigger] args[i]) is Text
                ==> value_number_fit(args[i]) is Some || name == "String.Concat"@ || name
                == "String.EqualTo"@ || name == "String.NotEqualTo"@ || name == "Value.EqualTo"@
                || name == "Value.NotEqualTo"@),
        forall|i: int|
            0 <= i < args.len() ==> ((#[trigger] args[i]) is Text ==> !(name == "Bool.And"@ || name
                == "Bool.Or"@ || name == "Bool.Not"@ || name == "Bool.EqualTo"@ || name
                == "Bool.NotEqualTo"@)),
    ensures
        r is Ok,
{
    lemma_builtin_names_distinct();
    if builtin_arity(name) == Some(2int) {
        assert(!(args[0] is Null) && !(args[1] is Null));
    } else {
        assert(!(args[0] is Null));
    }
}

fn sat_add(a: i64, b: i64) -> (r: i64)
    ensures
        r == sat_i64(a + b),
{
    match a.checked_add(b) {
        Some(v) => v,
        None => {
            if a > 0 {
                i64::MAX
            } else {
                i64::MIN
            }
        },
    }
}

fn sat_sub(a: i64, b: i64) -> (r: i64)
    ensures
        r == sat_i64(a - b),
{
    match a.checked_sub(b) {
        Some(v) => v,
        None => {
            if a >= 0 {
                i64::MAX
            } else {
                i64::MIN
            }
        },
    }
}

fn sat_mul(a: i64, b: i64) -> (r: i64)
    ensures
        r == sat_i64(a * b),
{
    match a.checked_mul(b) {
        Some(v) => v,
        None => {
            proof {
                assert(a * b > i64::MAX || a * b < i64::MIN);
                if a > 0 && b < 0 {
                    assert(a * b <= 0) by (nonlinear_arith)
                        requires
                            a > 0 && b < 0,
                    ;
                }
                if a < 0 && b > 0 {
                    assert(a * b <= 0) by (nonlinear_arith)
                        requires
                            a < 0 && b > 0,
                    ;
                }
                if a > 0 && b > 0 {
                    assert(a * b > 0) by (nonlinear_arith)
                        requires
                            a > 0 && b > 0,
                    ;
                }
                if a < 0 && b < 0 {
                    assert(a * b > 0) by (nonlinear_arith)
                        requires
                            a < 0 && b < 0,
                    ;
                }
            }
            if (a > 0) == (b > 0) {
                i64::MAX
            } else {
                i64::MIN
            }
        },
    }
}

fn sat_div(a: i64, b: i64) -> (r: i64)
    requires
        b != 0,
    ensures
        r == sat_i64(trunc_div(a as int, b as int)),
{
    match a.checked_div(b) {
        Some(v) => v,
        None => i64::MAX,
    }
}

fn sat_rem(a: i64, b: i64) -> (r: i64)
    requires
        b != 0,
    ensures
        r == sat_i64(trunc_rem(a as int, b as int)),
{
    match a.checked_rem(b) {
        Some(v) => v,
        None => 0,
    }
}

/// Copies a value; equal to its original.
pub fn clone_value(v: &Value) -> (r: Value)
    ensures
        r == *v,
{
    match v {
        Value::Number(n) => Value::Number(*n),
        Value::Text(s) => Value::Text(s.clone()),
        Value::Boolean(b) => Value::Boolean(*b),
        Value::Null => Value::Null,
    }
}

/// Evaluates a built-in function on its arguments, or reports that the
/// name is not built in.
#[verifier::rlimit(100)]
pub fn call_builtin(name: &str, args: &Vec<Value>) -> (r: Option<Result<Value, RuntimeError>>)
    ensures
        r is Some <==> builtin_arity(name@) is Some,
        r matches Some(res) ==> (builtin_arity(name@) == Some(args@.len() as int)
            ==> builtin_rel(name@, args@, res)),
{
    proof {
        lemma_builtin_names_distinct();
    }
    let two = args.len() == 2;
    let one = args.len() == 1;
    if str_eq(name, "Number.UnaryMinus") {
        if !one {
            return Some(Err(RuntimeError::TypeMismatch));
        }
        return Some(
            match args[0].to_number() {
                Some(a) => Ok(Value::Number(sat_sub(0, a))),
                None => Err(RuntimeError::TypeMismatch),
            },
        );
    }
    if str_eq(name, "Bool.Not") {
        if !one {
            return Some(Err(RuntimeError::TypeMismatch));
        }
        return Some(
            match args[0].to_bool() {
                Some(a) => Ok(Value::Boolean(!a)),
                None => Err(RuntimeError::TypeMismatch),
            },
        );
    }
    let numeric_two = str_eq(name, "Number.Add") || str_eq(name, "Number.Subtract") || str_eq(
        name,
        "Number.Multiply",
    ) || str_eq(name, "Number.Divide") || str_eq(name, "Number.Modulo") || str_eq(
        name,
        "Number.EqualTo",
    ) || str_eq(name, "Number.NotEqualTo") || str_eq(name, "Number.LessThan") || str_eq(
        name,
        "Number.LessThanOrEqualTo",
    ) || str_eq(name, "Number.GreaterThan") || str_eq(name, "Number.GreaterThanOrEqualTo");
    if numeric_two {
        if !two {
            return Some(Err(RuntimeError::TypeMismatch));
        }
        let na = args[0].to_number();
        let nb = args[1].to_number();
        let (a, b) = match (na, nb) {
            (Some(a), Some(b)) => (a, b),
            _ => {
                return Some(Err(RuntimeError::TypeMismatch));
            },
        };
        if str_eq(name, "Number.Add") {
            return Some(Ok(Value::Number(sat_add(a, b))));
        }
        if str_eq(name, "Number.Subtract") {
            return Some(Ok(Value::Number(sat_sub(a, b))));
        }
        if str_eq(name, "Number.Multiply") {
            return Some(Ok(Value::Number(sat_mul(a, b))));
        }
        if str_eq(name, "Number.Divide") {
            return Some(
                Ok(
                    Value::Number(
                        if b == 0 {
                            0
                        } else {
                            sat_div(a, b)
                        },
                    ),
                ),
            );
        }
        if str_eq(name, "Number.Modulo") {
            return Some(
                Ok(
                    Value::Number(
                        if b == 0 {
                            0
                        } else {
                            sat_rem(a, b)
                        },
                    ),
                ),
            );
        }
        if str_eq(name, "Number.EqualTo") {
            return Some(Ok(Value::Boolean(a == b)));
        }
        if str_eq(name, "Number.NotEqualTo") {
            return Some(Ok(Value::Boolean(a != b)));
        }
        if str_eq(name, "Number.LessThan") {
            return Some(Ok(Value::Boolean(a < b)));
        }
        if str_eq(name, "Number.LessThanOrEqualTo") {
            return Some(Ok(Value::Boolean(a <= b)));
        }
        if str_eq(name, "Number.GreaterThan") {
            return Some(Ok(Value::Boolean(a > b)));
        }
        return Some(Ok(Value::Boolean(a >= b)));
    }
    if str_eq(name, "String.Concat") {
        if !two {
            return Some(Err(RuntimeError::TypeMismatch));
        }
        let a = args[0].to_text();
        let b = args[1].to_text();
        return Some(Ok(Value::Text(a.concat(b.as_str()))));
    }
    if str_eq(name, "String.EqualTo") {
        if !two {
            return Some(Err(RuntimeError::TypeMismatch));
        }
        let a = args[0].to_text();
        let b = args[1].to_text();
        return Some(Ok(Value::Boolean(str_eq(a.as_str(), b.as_str()))));
    }
    if str_eq(name, "String.NotEqualTo") {
        if !two {
            return Some(Err(RuntimeError::TypeMismatch));
        }
        let a = args[0].to_text();
        let b = args[1].to_text();
        return Some(Ok(Value::Boolean(!str_eq(a.as_str(), b.as_str()))));
    }
    let boolean_two = str_eq(name, "Bool.And") || str_eq(name, "Bool.Or") || str_eq(
        name,
        "Bool.EqualTo",
    ) || str_eq(name, "Bool.NotEqualTo");
    if boolean_two {
        if !two {
            return Some(Err(RuntimeError::TypeMismatch));
        }
        let ba = args[0].to_bool();
        let bb = args[1].to_bool();
        let (a, b) = match (ba, bb) {
            (Some(a), Some(b)) => (a, b),
            _ => {
                return Some(Err(RuntimeError::TypeMismatch));
            },
        };
        if str_eq(name, "Bool.And") {
            return Some(Ok(Value::Boolean(a && b)));
        }
        if str_eq(name, "Bool.Or") {
            return Some(Ok(Value::Boolean(a || b)));
        }
        if str_eq(name, "Bool.EqualTo") {
            return Some(Ok(Value::Boolean(a == b)));
        }
        return Some(Ok(Value::Boolean(a != b)));
    }
    if str_eq(name, "Value.EqualTo") {
        if !two {
            return Some(Err(RuntimeError::TypeMismatch));
        }
        return Some(Ok(Value::Boolean(args[0].equals(&args[1]))));
    }
    if str_eq(name, "Value.NotEqualTo") {
        if !two {
            return Some(Err(RuntimeError::TypeMismatch));
        }
        return Some(Ok(Value::Boolean(!args[0].equals(&args[1]))));
    }
    None
}

/// Copies a vector of values; equal to its original.
fn clone_values(v: &Vec<Value>) -> (r: Vec<Value>)
    ensures
        r@ == v@,
{
    let mut out: Vec<Value> = Vec::new();
    let mut i: usize = 0;
    while i < v.len()
        invariant
            i <= v@.len(),
            out@ =~= v@.subrange(0, i as int),
        decreases v@.len() - i,
    {
        out.push(clone_value(&v[i]));
        proof {
            assert(out@ =~= v@.subrange(0, i + 1));
        }
        i += 1;
    }
    proof {
        assert(out@ =~= v@);
    }
    out
}

/// Copies the delivered options: same ids, destinations, flags and
/// substitution values as the buffer they came from.
fn clone_options(v: &Vec<DialogueOption>) -> (r: Vec<DialogueOption>)
    ensures
        r@.len() == v@.len(),
        forall|i: int|
            0 <= i < v@.len() ==> {
                &&& (#[trigger] r@[i]).line_id@ == v@[i].line_id@
                &&& r@[i].destination == v@[i].destination
                &&& r@[i].enabled == v@[i].enabled
                &&& r@[i].substitutions@ == v@[i].substitutions@
            },
{
    let mut out: Vec<DialogueOption> = Vec::new();
    let mut i: usize = 0;
    while i < v.len()
        invariant
            i <= v@.len(),
            out@.len() == i,
            forall|j: int|
                0 <= j < i ==> {
                    &&& (#[trigger] out@[j]).line_id@ == v@[j].line_id@
                    &&& out@[j].destination == v@[j].destination
                    &&& out@[j].enabled == v@[j].enabled
                    &&& out@[j].substitutions@ == v@[j].substitutions@
                },
        decreases v@.len() - i,
    {
        let o = &v[i];
        out.push(
            DialogueOption {
                line_id: o.line_id.clone(),
                destination: o.destination,
                enabled: o.enabled,
                substitutions: clone_values(&o.substitutions),
            },
        );
        i += 1;
    }
    out
}

/// Copies one instruction; equal to its original.
fn clone_instruction(i: &Instruction) -> (r: Instruction)
    ensures
        r == *i,
{
    match i {
        Instruction::JumpTo(t) => Instruction::JumpTo(*t),
        Instruction::JumpIfFalse(t) => Instruction::JumpIfFalse(*t),
        Instruction::Jump => Instruction::Jump,
        Instruction::RunLine(id, k) => Instruction::RunLine(id.clone(), *k),
        Instruction::RunCommand(text, k) => Instruction::RunCommand(text.clone(), *k),
        Instruction::AddOption(id, d, k, c) => Instruction::AddOption(id.clone(), *d, *k, *c),
        Instruction::ShowOptions => Instruction::ShowOptions,
        Instruction::PushString(s) => Instruction::PushString(s.clone()),
        Instruction::PushNumber(n) => Instruction::PushNumber(*n),
        Instruction::PushBool(b) => Instruction::PushBool(*b),
        Instruction::PushNull => Instruction::PushNull,
        Instruction::Pop => Instruction::Pop,
        Instruction::CallFunc(name) => Instruction::CallFunc(name.clone()),
        Instruction::PushVariable(name) => Instruction::PushVariable(name.clone()),
        Instruction::StoreVariable(name) => Instruction::StoreVariable(name.clone()),
        Instruction::Stop => Instruction::Stop,
        Instruction::RunNode => Instruction::RunNode,
        Instruction::AddSaltyDeterministicShuffleToQueue
            => Instruction::AddSaltyDeterministicShuffleToQueue,
    }
}

/// Formats positional `{i}` placeholders in command text with the textual
/// rendering of the substitution values. A placeholder with no matching
/// substitution is kept as written.
pub(crate) fn format_line(text: &str, subs: &Vec<Value>) -> (r: String) {
    let chars = str_to_chars(text);
    let n = chars.len();
    let mut out = String::new();
    let mut i: usize = 0;
    while i < n
        invariant
            n == chars@.len(),
            i <= n,
        decreases n - i,
    {
        let c = chars[i];
        if c == '{' {
            let mut j = i + 1;
            while j < n
                invariant
                    i < j <= n,
                    n == chars@.len(),
                decreases n - j,
            {
                let d = chars[j];
                if !('0' <= d && d <= '9') {
                    break;
                }
                j += 1;
            }
            if j > i + 1 && j < n && chars[j] == '}' {
                let idx = crate::text::parse_integer_exec(&chars, i + 1, j);
                let mut replaced = false;
                match idx {
                    Some(x) => {
                        if x >= 0 && (x as u64) < subs.len() as u64 {
                            let v = &subs[x as usize];
                            let t = v.to_text();
                            out.append(t.as_str());
                            replaced = true;
                        }
                    },
                    None => {},
                }
                if !replaced {
                    let literal = crate::text::chars_to_string(&chars, i, j + 1);
                    out.append(literal.as_str());
                }
                i = j + 1;
            } else {
                push_char(&mut out, '{');
                i += 1;
            }
        } else {
            push_char(&mut out, c);
            i += 1;
        }
    }
    out
}

/// What a successful `continue` guarantees: at least one event came out,
/// and the last one says where the machine now stands — a delivered line,
/// option set or command, a node transition, or completion.
pub open spec fn resumed_properly(vm: VirtualMachine, evs: Seq<DialogueEvent>) -> bool {
    evs.len() > 0 && {
        ||| (vm.state == ExecutionState::DeliveringContent && evs.last() is LineReady)
        ||| (vm.state == ExecutionState::WaitingOnOptionSelection && evs.last() is OptionsReady)
        ||| (vm.state == ExecutionState::WaitingForContinue && evs.last() is CommandReady)
        ||| (vm.state == ExecutionState::Running && evs.last() is NodeStart)
        ||| (vm.state == ExecutionState::Stopped && evs.last() is DialogueComplete)
    }
}

/// The virtual machine: borrows a compiled program, owns the variable
/// store and the function registry, and mutates its private registers.
pub struct VirtualMachine {
    /// The compiled program under execution.
    pub program: Program,
    /// Registered functions: the standard library followed by the host's.
    pub library: Library,
    /// The variable store the machine reads and writes through.
    pub storage: MemoryVariableStore,
    /// Where the machine stands.
    pub state: ExecutionState,
    /// The node under execution, as an index into the program.
    pub current_node: Option<usize>,
    /// The next instruction of the current node.
    pub pc: usize,
    /// The operand stack.
    pub stack: Stack<Value>,
    /// The options buffered since the last option set was delivered.
    pub options: Vec<DialogueOption>,
    /// Whether `start` ever succeeded.
    pub started: bool,
    /// Whether the dialogue ran to completion.
    pub completed: bool,
    /// A node start event not yet delivered.
    pub pending_node_start: Option<String>,
}

impl VirtualMachine {
    /// The machine's invariant: the current node, where one is set, lies
    /// inside the program.
    pub open spec fn wf(&self) -> bool {
        match self.current_node {
            Some(i) => i < self.program.nodes@.len(),
            None => true,
        }
    }

    /// Creates a machine over the given program and variable store. Its
    /// function registry is the standard library followed by the given
    /// library, in order.
    pub fn new(program: Program, storage: MemoryVariableStore, library: Library) -> (r: Self)
        ensures
            r.wf(),
            r.program == program,
            r.storage == storage,
            r.library.functions@.len() == 22 + library.functions@.len(),
            r.library.functions@.subrange(22, r.library.functions@.len() as int)
                == library.functions@,
            crate::library::has_standard_signatures(r.library.functions@),
            r.state == ExecutionState::Stopped,
            !r.started,
            !r.completed,
    {
        let mut lib = crate::library::standard_library();
        let ghost std_sigs = lib.functions@;
        lib.extend(library);
        proof {
            crate::library::lemma_has_sig_extend(std_sigs, library.functions@);
            assert(lib.functions@.subrange(22, lib.functions@.len() as int)
                =~= library.functions@);
        }
        VirtualMachine {
            program,
            library: lib,
            storage,
            state: ExecutionState::Stopped,
            current_node: None,
            pc: 0,
            stack: Stack::new(),
            options: Vec::new(),
            started: false,
            completed: false,
            pending_node_start: None,
        }
    }

    /// The variable store, for the host to read.
    pub fn variable_storage(&self) -> (r: &MemoryVariableStore)
        ensures
            r == &self.storage,
    {
        &self.storage
    }

    /// The variable store, for the host to seed or persist.
    pub fn variable_storage_mut(&mut self) -> (r: &mut MemoryVariableStore)
        ensures
            old(self).wf() ==> final(self).wf(),
    {
        &mut self.storage
    }

    /// Starts the named node: the machine becomes running at its first
    /// instruction, and the node start event is delivered with the next
    /// `continue`. Fails exactly when the program has no node of that
    /// name.
    pub fn start(&mut self, node: &str) -> (r: Result<(), RuntimeError>)
        requires
            old(self).wf(),
        ensures
            final(self).wf(),
            r is Ok <==> (exists|i: int|
                0 <= i < old(self).program.nodes@.len() && (
                #[trigger] old(self).program.nodes@[i]).name@ == node@),
            r is Ok ==> final(self).state == ExecutionState::Running && final(self).pc == 0
                && final(self).started,
            r is Err ==> r == Result::<(), RuntimeError>::Err(RuntimeError::UnknownNode),
    {
        match self.program.node_index(node) {
            Some(i) => {
                self.current_node = Some(i);
                self.pc = 0;
                self.state = ExecutionState::Running;
                self.started = true;
                self.completed = false;
                self.stack = Stack::new();
                self.options = Vec::new();
                let name = self.program.nodes[i].name.clone();
                self.pending_node_start = Some(name);
                Ok(())
            },
            None => Err(RuntimeError::UnknownNode),
        }
    }

    /// Stops the dialogue from any state, immediately and idempotently,
    /// and hands back the completion event.
    pub fn stop(&mut self) -> (r: Vec<DialogueEvent>)
        requires
            old(self).wf(),
        ensures
            final(self).wf(),
            final(self).state == ExecutionState::Stopped,
            r@.len() == 1 && r@[0] is DialogueComplete,
    {
        self.state = ExecutionState::Stopped;
        self.completed = true;
        self.options = Vec::new();
        self.pending_node_start = None;
        let mut events: Vec<DialogueEvent> = Vec::new();
        events.push(DialogueEvent::DialogueComplete);
        events
    }

    /// Selects one delivered option: execution moves to its destination
    /// and the options buffer is cleared. Fails with `NoOptions` when no
    /// option set is pending and with `IndexOutOfRange` when the index is
    /// past the delivered set.
    pub fn select_option(&mut self, index: usize) -> (r: Result<(), RuntimeError>)
        requires
            old(self).wf(),
        ensures
            final(self).wf(),
            r is Ok <==> (old(self).state == ExecutionState::WaitingOnOptionSelection && index
                < old(self).options@.len()),
            old(self).state != ExecutionState::WaitingOnOptionSelection ==> r == Result::<
                (),
                RuntimeError,
            >::Err(RuntimeError::NoOptions),
            (old(self).state == ExecutionState::WaitingOnOptionSelection && index >= old(
                self,
            ).options@.len()) ==> r == Result::<(), RuntimeError>::Err(
                RuntimeError::IndexOutOfRange,
            ),
            r is Ok ==> final(self).state == ExecutionState::Running && final(self).pc == old(
                self,
            ).options@[index as int].destination && final(self).options@.len() == 0,
    {
        if !(self.state == ExecutionState::WaitingOnOptionSelection) {
            return Err(RuntimeError::NoOptions);
        }
        if index >= self.options.len() {
            return Err(RuntimeError::IndexOutOfRange);
        }
        self.pc = self.options[index].destination;
        self.options = Vec::new();
        self.state = ExecutionState::Running;
        Ok(())
    }

    fn pop_value(&mut self) -> (r: Result<Value, RuntimeError>)
        ensures
            final(self).wf() == old(self).wf(),
            final(self).program == old(self).program,
            final(self).library == old(self).library,
            final(self).pending_node_start == old(self).pending_node_start,
            final(self).current_node == old(self).current_node,
            final(self).pc == old(self).pc,
            final(self).state == old(self).state,
            r is Err ==> r == Result::<Value, RuntimeError>::Err(RuntimeError::StackUnderflow),
    {
        match self.stack.pop() {
            Some(v) => Ok(v),
            None => Err(RuntimeError::StackUnderflow),
        }
    }

    /// Pops the top `k` values: the vector holds them in the order they
    /// were pushed.
    fn pop_values(&mut self, k: usize) -> (r: Result<Vec<Value>, RuntimeError>)
        ensures
            final(self).wf() == old(self).wf(),
            final(self).program == old(self).program,
            final(self).library == old(self).library,
            final(self).pending_node_start == old(self).pending_node_start,
            final(self).current_node == old(self).current_node,
            final(self).pc == old(self).pc,
            final(self).state == old(self).state,
            r matches Ok(vals) ==> vals@.len() == k,
            r is Err ==> r == Result::<Vec<Value>, RuntimeError>::Err(
                RuntimeError::StackUnderflow,
            ),
    {
        let mut reversed: Vec<Value> = Vec::new();
        let mut i: usize = 0;
        while i < k
            invariant
                i <= k,
                reversed@.len() == i,
                self.wf() == old(self).wf(),
                self.program == old(self).program,
                self.library == old(self).library,
                self.pending_node_start == old(self).pending_node_start,
                self.current_node == old(self).current_node,
                self.pc == old(self).pc,
                self.state == old(self).state,
            decreases k - i,
        {
            match self.stack.pop() {
                Some(v) => {
                    reversed.push(v);
                },
                None => {
                    return Err(RuntimeError::StackUnderflow);
                },
            }
            i += 1;
        }
        let mut ordered: Vec<Value> = Vec::new();
        let mut j: usize = reversed.len();
        while j > 0
            invariant
                j <= reversed@.len(),
                ordered@.len() + j == reversed@.len(),
                self.wf() == old(self).wf(),
                self.program == old(self).program,
                self.library == old(self).library,
                self.pending_node_start == old(self).pending_node_start,
                self.current_node == old(self).current_node,
                self.pc == old(self).pc,
                self.state == old(self).state,
            decreases j,
        {
            j -= 1;
            ordered.push(clone_value(&reversed[j]));
        }
        Ok(ordered)
    }

    /// Executes instructions from the current position until the next
    /// suspension point, and returns the events produced since the last
    /// call. The last event says where the machine now stands: a line, an
    /// option set or a command was delivered, a new node began, or the
    /// dialogue completed.
    #[verifier::loop_isolation(false)]
    #[verifier::rlimit(100)]
    pub fn continue_<H: HostFunctions>(&mut self, host: &mut H) -> (r: Result<
        Vec<DialogueEvent>,
        RuntimeError,
    >)
        requires
            old(self).wf(),
        ensures
            final(self).wf(),
            final(self).program == old(self).program,
            final(self).library == old(self).library,
            old(self).state == ExecutionState::Stopped && old(self).completed ==> r == Result::<
                Vec<DialogueEvent>,
                RuntimeError,
            >::Err(RuntimeError::AlreadyComplete),
            old(self).state == ExecutionState::Stopped && !old(self).completed ==> r == Result::<
                Vec<DialogueEvent>,
                RuntimeError,
            >::Err(RuntimeError::NotStarted),
            old(self).state == ExecutionState::WaitingOnOptionSelection ==> r == Result::<
                Vec<DialogueEvent>,
                RuntimeError,
            >::Err(RuntimeError::OptionSelectionPending),
            r matches Ok(evs) ==> resumed_properly(*final(self), evs@),
            r matches Ok(evs) ==> (old(self).pending_node_start matches Some(nm) ==> (evs@.len()
                > 0 && (evs@[0] matches DialogueEvent::NodeStart(x) && x@ == nm@))),
            r is Ok ==> final(self).pending_node_start is None,
    {
        if self.state == ExecutionState::Stopped {
            if self.completed {
                return Err(RuntimeError::AlreadyComplete);
            }
            return Err(RuntimeError::NotStarted);
        }
        if self.state == ExecutionState::WaitingOnOptionSelection {
            return Err(RuntimeError::OptionSelectionPending);
        }
        let mut events: Vec<DialogueEvent> = Vec::new();
        let mut took: Option<String> = None;
        match &self.pending_node_start {
            Some(s) => {
                took = Some(s.clone());
            },
            None => {},
        }
        if let Some(name) = took {
            self.pending_node_start = None;
            events.push(DialogueEvent::NodeStart(name));
        }
        self.state = ExecutionState::Running;
        let idx = match self.current_node {
            Some(i) => i,
            None => {
                // Running with no node set cannot arise through the API;
                // close the dialogue.
                self.state = ExecutionState::Stopped;
                self.completed = true;
                events.push(DialogueEvent::DialogueComplete);
                return Ok(events);
            },
        };
        let node_len = self.program.nodes[idx].instructions.len();
        if self.pc > node_len {
            // Past the stream: treat as the implicit stop. Generated code
            // never reaches here.
            self.pc = node_len;
        }
        loop
            invariant
                self.wf(),
                self.current_node == Some(idx),
                idx < self.program.nodes@.len(),
                self.program == old(self).program,
                self.library == old(self).library,
                self.pending_node_start is None,
                old(self).pending_node_start matches Some(nm) ==> (events@.len() > 0 && (
                events@[0] matches DialogueEvent::NodeStart(x) && x@ == nm@)),
                node_len == self.program.nodes@[idx as int].instructions@.len(),
                self.pc <= node_len,
                self.state == ExecutionState::Running,
            decreases node_len - self.pc,
        {
            let inst = if self.pc < node_len {
                clone_instruction(&self.program.nodes[idx].instructions[self.pc])
            } else {
                Instruction::Stop
            };
            match inst {
                Instruction::Stop => {
                    let name = self.program.nodes[idx].name.clone();
                    events.push(DialogueEvent::NodeComplete(name));
                    events.push(DialogueEvent::DialogueComplete);
                    self.state = ExecutionState::Stopped;
                    self.completed = true;
                    return Ok(events);
                },
                Instruction::PushString(s) => {
                    self.stack.push(Value::Text(s));
                    self.pc += 1;
                },
                Instruction::PushNumber(n) => {
                    self.stack.push(Value::Number(n));
                    self.pc += 1;
                },
                Instruction::PushBool(b) => {
                    self.stack.push(Value::Boolean(b));
                    self.pc += 1;
                },
                Instruction::PushNull => {
                    self.stack.push(Value::Null);
                    self.pc += 1;
                },
                Instruction::Pop => {
                    match self.pop_value() {
                        Ok(_) => {},
                        Err(e) => {
                            return Err(e);
                        },
                    }
                    self.pc += 1;
                },
                Instruction::PushVariable(name) => {
                    let mut taken: Option<Value> = None;
                    match self.storage.get(name.as_str()) {
                        Some(v) => {
                            taken = Some(clone_value(v));
                        },
                        None => {},
                    }
                    let value = match taken {
                        Some(v) => v,
                        None => {
                            // A missing variable reads as its declared
                            // default; with no declaration, null.
                            let mut fallback: Value = Value::Null;
                            match self.program.initial_value(name.as_str()) {
                                Some(v) => {
                                    fallback = clone_value(v);
                                },
                                None => {},
                            }
                            fallback
                        },
                    };
                    self.stack.push(value);
                    self.pc += 1;
                },
                Instruction::StoreVariable(name) => {
                    let top = match self.stack.peek() {
                        Some(v) => clone_value(v),
                        None => {
                            return Err(RuntimeError::StackUnderflow);
                        },
                    };
                    self.storage.set(name, top);
                    self.pc += 1;
                },
                Instruction::JumpTo(t) => {
                    if t <= self.pc || t > node_len {
                        return Err(RuntimeError::InvalidJump);
                    }
                    self.pc = t;
                },
                Instruction::JumpIfFalse(t) => {
                    let cond = match self.pop_value() {
                        Ok(v) => v,
                        Err(e) => {
                            return Err(e);
                        },
                    };
                    let b = match cond.to_bool() {
                        Some(b) => b,
                        None => {
                            return Err(RuntimeError::TypeMismatch);
                        },
                    };
                    if b {
                        self.pc += 1;
                    } else {
                        if t <= self.pc || t > node_len {
                            return Err(RuntimeError::InvalidJump);
                        }
                        self.pc = t;
                    }
                },
                Instruction::Jump => {
                    let v = match self.pop_value() {
                        Ok(v) => v,
                        Err(e) => {
                            return Err(e);
                        },
                    };
                    let label = v.to_text();
                    let target = self.program.nodes[idx].label_position(label.as_str());
                    match target {
                        Some(t) => {
                            if t <= self.pc || t > node_len {
                                return Err(RuntimeError::InvalidJump);
                            }
                            self.pc = t;
                        },
                        None => {
                            return Err(RuntimeError::UnknownNode);
                        },
                    }
                },
                Instruction::RunLine(id, k) => {
                    let subs = match self.pop_values(k) {
                        Ok(vs) => vs,
                        Err(e) => {
                            return Err(e);
                        },
                    };
                    self.pc += 1;
                    self.state = ExecutionState::DeliveringContent;
                    events.push(DialogueEvent::LineReady(id, subs));
                    return Ok(events);
                },
                Instruction::RunCommand(text, k) => {
                    let subs = match self.pop_values(k) {
                        Ok(vs) => vs,
                        Err(e) => {
                            return Err(e);
                        },
                    };
                    let formatted = format_line(text.as_str(), &subs);
                    self.pc += 1;
                    self.state = ExecutionState::WaitingForContinue;
                    events.push(DialogueEvent::CommandReady(formatted));
                    return Ok(events);
                },
                Instruction::AddOption(id, destination, k, has_condition) => {
                    let enabled = if has_condition {
                        let cond = match self.pop_value() {
                            Ok(v) => v,
                            Err(e) => {
                                return Err(e);
                            },
                        };
                        match cond.to_bool() {
                            Some(b) => b,
                            None => {
                                return Err(RuntimeError::TypeMismatch);
                            },
                        }
                    } else {
                        true
                    };
                    let subs = match self.pop_values(k) {
                        Ok(vs) => vs,
                        Err(e) => {
                            return Err(e);
                        },
                    };
                    self.options.push(
                        DialogueOption { line_id: id, destination, enabled, substitutions: subs },
                    );
                    self.pc += 1;
                },
                Instruction::ShowOptions => {
                    self.pc += 1;
                    self.state = ExecutionState::WaitingOnOptionSelection;
                    let delivered = clone_options(&self.options);
                    events.push(DialogueEvent::OptionsReady(delivered));
                    return Ok(events);
                },
                Instruction::CallFunc(name) => {
                    let arity = match self.library.get(name.as_str()) {
                        Some(sig) => sig.parameters.len(),
                        None => {
                            return Err(RuntimeError::FunctionNotFound);
                        },
                    };
                    let args = match self.pop_values(arity) {
                        Ok(vs) => vs,
                        Err(e) => {
                            return Err(e);
                        },
                    };
                    match call_builtin(name.as_str(), &args) {
                        Some(Ok(v)) => {
                            self.stack.push(v);
                        },
                        Some(Err(e)) => {
                            return Err(e);
                        },
                        None => {
                            match host.call_function(name.as_str(), args) {
                                Some(v) => {
                                    self.stack.push(v);
                                },
                                None => {
                                    return Err(RuntimeError::FunctionNotFound);
                                },
                            }
                        },
                    }
                    self.pc += 1;
                },
                Instruction::RunNode => {
                    let v = match self.pop_value() {
                        Ok(v) => v,
                        Err(e) => {
                            return Err(e);
                        },
                    };
                    let target = v.to_text();
                    match self.program.node_index(target.as_str()) {
                        Some(i) => {
                            let old_name = self.program.nodes[idx].name.clone();
                            let new_name = self.program.nodes[i].name.clone();
                            events.push(DialogueEvent::NodeComplete(old_name));
                            events.push(DialogueEvent::NodeStart(new_name));
                            self.current_node = Some(i);
                            self.pc = 0;
                            self.stack = Stack::new();
                            return Ok(events);
                        },
                        None => {
                            // A computed jump to a missing node ends the
                            // dialogue: the machine stops, completed, and
                            // the error return takes the place of the
                            // completion event — the events gathered this
                            // turn are not delivered.
                            self.state = ExecutionState::Stopped;
                            self.completed = true;
                            return Err(RuntimeError::UnknownNode);
                        },
                    }
                },
                Instruction::AddSaltyDeterministicShuffleToQueue => {
                    // Reserved for a future extension; does nothing.
                    self.pc += 1;
                },
            }
        }
    }
}


} // verus!
