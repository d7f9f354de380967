//! The small type lattice of the language, and variable and function
//! declarations gathered during semantic analysis.

use vstd::prelude::*;
use crate::value::Value;

verus! {

/// A type of the language. `Any` is the unconstrained type; unification
/// narrows it to a concrete type. `Function` marks a declared function
/// symbol, whose parameter and return types live in its signature.
#[derive(Clone, Copy, Debug, PartialEq, Eq, Structural)]
pub enum Type {
    /// Not yet constrained; unifies with every type.
    Any,
    /// A numeric value.
    Number,
    /// A piece of text.
    Text,
    /// A truth value.
    Boolean,
    /// A declared function symbol.
    Function,
}

/// Unifies two types: equal types unify with themselves, `Any` with anything.
pub open spec fn unify_spec(a: Type, b: Type) -> Option<Type> {
    if a == b {
        Some(a)
    } else if a == Type::Any {
        Some(b)
    } else if b == Type::Any {
        Some(a)
    } else {
        None
    }
}

/// Unifies two types, narrowing `Any` to the other side.
pub fn unify(a: Type, b: Type) -> (r: Option<Type>)
    ensures
        r == unify_spec(a, b),
{
    if a == b {
        Some(a)
    } else if a == Type::Any {
        Some(b)
    } else if b == Type::Any {
        Some(a)
    } else {
        None
    }
}

/// The type a value carries at runtime.
pub open spec fn value_type_spec(v: Value) -> Type {
    match v {
        Value::Number(_) => Type::Number,
        Value::Text(_) => Type::Text,
        Value::Boolean(_) => Type::Boolean,
        Value::Null => Type::Any,
    }
}

/// Returns the type a value carries at runtime; null is unconstrained.
pub fn value_type(v: &Value) -> (r: Type)
    ensures
        r == value_type_spec(*v),
{
    match v {
        Value::Number(_) => Type::Number,
        Value::Text(_) => Type::Text,
        Value::Boolean(_) => Type::Boolean,
        Value::Null => Type::Any,
    }
}

/// A position in a source file: one-based line, zero-based column.
#[derive(Clone, Copy, Debug, PartialEq, Eq, Structural)]
pub struct Position {
    /// The one-based line number.
    pub line: usize,
    /// The zero-based character column.
    pub character: usize,
}

/// A half-open span between two source positions.
#[derive(Clone, Copy, Debug, PartialEq, Eq, Structural)]
pub struct SourceRange {
    /// Where the span starts.
    pub start: Position,
    /// Just past where the span ends.
    pub end: Position,
}

/// A declared name: a user variable (prefixed `$`) or a function symbol,
/// with its type, default value and provenance.
#[derive(Clone, Debug)]
pub struct Declaration {
    /// The declared name.
    pub name: String,
    /// The declared or inferred type.
    pub declared_type: Type,
    /// The default value, for variables.
    pub default_value: Option<Value>,
    /// The file the declaration came from; empty for built-ins and
    /// caller-supplied declarations.
    pub source_file_name: String,
    /// The node the declaration came from; empty outside nodes.
    pub source_node_name: String,
    /// Where in the source the declaration stands.
    pub range: SourceRange,
    /// A human-readable description, where one was given.
    pub description: String,
    /// Whether the declaration was inferred rather than written.
    pub is_implicit: bool,
}

/// Two declarations are the same at the view level: every field agrees.
pub open spec fn declaration_equiv(a: Declaration, b: Declaration) -> bool {
    &&& a.name@ == b.name@
    &&& a.declared_type == b.declared_type
    &&& match (a.default_value, b.default_value) {
        (Some(x), Some(y)) => crate::value::value_eq(x, y),
        (None, None) => true,
        _ => false,
    }
    &&& a.source_file_name@ == b.source_file_name@
    &&& a.source_node_name@ == b.source_node_name@
    &&& a.range == b.range
    &&& a.description@ == b.description@
    &&& a.is_implicit == b.is_implicit
}

/// A function-symbol declaration: explicitly declared, typed as a
/// function, with no default value.
pub open spec fn is_function_declaration(d: Declaration) -> bool {
    d.declared_type == Type::Function && !d.is_implicit && d.default_value is None
}

/// Looks a declaration up by name; the first binding wins.
pub open spec fn find_declaration_spec(decls: Seq<Declaration>, name: Seq<char>) -> Option<
    Declaration,
>
    decreases decls.len(),
{
    if decls.len() == 0 {
        None
    } else if decls[0].name@ == name {
        Some(decls[0])
    } else {
        find_declaration_spec(decls.drop_first(), name)
    }
}

/// Finds the first declaration with the given name.
pub fn find_declaration<'a>(decls: &'a Vec<Declaration>, name: &str) -> (r: Option<
    &'a Declaration,
>)
    ensures
        match r {
            Some(d) => find_declaration_spec(decls@, name@) == Some(*d),
            None => find_declaration_spec(decls@, name@) is None,
        },
{
    let mut i: usize = 0;
    proof {
        assert(decls@.subrange(0, decls@.len() as int) =~= decls@);
    }
    while i < decls.len()
        invariant
            i <= decls@.len(),
            find_declaration_spec(decls@, name@) == find_declaration_spec(
                decls@.subrange(i as int, decls@.len() as int),
                name@,
            ),
        decreases decls@.len() - i,
    {
        proof {
            let rest = decls@.subrange(i as int, decls@.len() as int);
            assert(rest[0] == decls@[i as int]);
            assert(rest.drop_first() =~= decls@.subrange(i + 1, decls@.len() as int));
        }
        if crate::text::str_eq(decls[i].name.as_str(), name) {
            return Some(&decls[i]);
        }
        i += 1;
    }
    proof {
        assert(decls@.subrange(decls@.len() as int, decls@.len() as int) =~= Seq::<
            Declaration,
        >::empty());
    }
    None
}

} // verus!
