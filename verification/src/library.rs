//! The registry of host-callable functions: names with arity and type
//! metadata. The standard library holds the functions that operators are
//! lowered to; the host registers its own beside them.

use vstd::prelude::*;
use crate::text::str_eq;
use crate::types::Type;

verus! {

/// The declared shape of a callable function: its parameter types and its
/// return type.
#[derive(Clone, Debug)]
pub struct FunctionSignature {
    /// The name the function is called by.
    pub name: String,
    /// The parameter types, in order.
    pub parameters: Vec<Type>,
    /// The type of the returned value.
    pub return_type: Type,
}

/// Looks a signature up by name; the first binding wins.
pub open spec fn find_signature_spec(sigs: Seq<FunctionSignature>, name: Seq<char>) -> Option<
    FunctionSignature,
>
    decreases sigs.len(),
{
    if sigs.len() == 0 {
        None
    } else if sigs[0].name@ == name {
        Some(sigs[0])
    } else {
        find_signature_spec(sigs.drop_first(), name)
    }
}

/// A registry of host-callable functions, read-only after registration.
#[derive(Clone, Debug)]
pub struct Library {
    /// The registered signatures, in registration order.
    pub functions: Vec<FunctionSignature>,
}

impl Library {
    /// Creates an empty library.
    pub fn new() -> (r: Self)
        ensures
            r.functions@.len() == 0,
    {
        Library { functions: Vec::new() }
    }

    /// Registers a function signature.
    pub fn add_function(&mut self, name: String, parameters: Vec<Type>, return_type: Type)
        ensures
            final(self).functions@ == old(self).functions@.push(
                FunctionSignature { name, parameters, return_type },
            ),
    {
        self.functions.push(FunctionSignature { name, parameters, return_type });
    }

    /// Finds the signature registered under the given name.
    pub fn get(&self, name: &str) -> (r: Option<&FunctionSignature>)
        ensures
            match r {
                Some(sig) => find_signature_spec(self.functions@, name@) == Some(*sig),
                None => find_signature_spec(self.functions@, name@) is None,
            },
    {
        let mut i: usize = 0;
        proof {
            assert(self.functions@.subrange(0, self.functions@.len() as int) =~= self.functions@);
        }
        while i < self.functions.len()
            invariant
                i <= self.functions@.len(),
                find_signature_spec(self.functions@, name@) == find_signature_spec(
                    self.functions@.subrange(i as int, self.functions@.len() as int),
                    name@,
                ),
            decreases self.functions@.len() - i,
        {
            proof {
                let rest = self.functions@.subrange(i as int, self.functions@.len() as int);
                assert(rest[0] == self.functions@[i as int]);
                assert(rest.drop_first() =~= self.functions@.subrange(
                    i + 1,
                    self.functions@.len() as int,
                ));
            }
            if str_eq(self.functions[i].name.as_str(), name) {
                return Some(&self.functions[i]);
            }
            i += 1;
        }
        proof {
            assert(self.functions@.subrange(self.functions@.len() as int, self.functions@.len() as int)
                =~= Seq::<FunctionSignature>::empty());
        }
        None
    }

    /// Appends every function of the other library to this one.
    pub fn extend(&mut self, other: Library)
        ensures
            final(self).functions@ == old(self).functions@ + other.functions@,
    {
        let mut rest = other.functions;
        let ghost all = rest@;
        while rest.len() > 0
            invariant
                self.functions@ + rest@ == old(self).functions@ + all,
            decreases rest@.len(),
        {
            let sig = rest.remove(0);
            self.functions.push(sig);
            assert(self.functions@ + rest@ =~= old(self).functions@ + all);
        }
        assert(self.functions@ =~= self.functions@ + rest@);
    }
}

/// Whether the registry holds a signature with the given name, parameter
/// count and return type.
pub open spec fn has_sig(
    sigs: Seq<FunctionSignature>,
    name: Seq<char>,
    arity: int,
    return_type: Type,
) -> bool {
    exists|i: int|
        0 <= i < sigs.len() && (#[trigger] sigs[i]).name@ == name && sigs[i].parameters@.len()
            == arity && sigs[i].return_type == return_type
}

/// Whether the registry holds every operator function of the standard
/// library, under its name with its arity and return type.
pub open spec fn has_standard_signatures(sigs: Seq<FunctionSignature>) -> bool {
    &&& has_sig(sigs, "Number.Add"@, 2, Type::Number)
    &&& has_sig(sigs, "Number.Subtract"@, 2, Type::Number)
    &&& has_sig(sigs, "Number.Multiply"@, 2, Type::Number)
    &&& has_sig(sigs, "Number.Divide"@, 2, Type::Number)
    &&& has_sig(sigs, "Number.Modulo"@, 2, Type::Number)
    &&& has_sig(sigs, "Number.UnaryMinus"@, 1, Type::Number)
    &&& has_sig(sigs, "Number.EqualTo"@, 2, Type::Boolean)
    &&& has_sig(sigs, "Number.NotEqualTo"@, 2, Type::Boolean)
    &&& has_sig(sigs, "Number.LessThan"@, 2, Type::Boolean)
    &&& has_sig(sigs, "Number.LessThanOrEqualTo"@, 2, Type::Boolean)
    &&& has_sig(sigs, "Number.GreaterThan"@, 2, Type::Boolean)
    &&& has_sig(sigs, "Number.GreaterThanOrEqualTo"@, 2, Type::Boolean)
    &&& has_sig(sigs, "String.Concat"@, 2, Type::Text)
    &&& has_sig(sigs, "String.EqualTo"@, 2, Type::Boolean)
    &&& has_sig(sigs, "String.NotEqualTo"@, 2, Type::Boolean)
    &&& has_sig(sigs, "Bool.EqualTo"@, 2, Type::Boolean)
    &&& has_sig(sigs, "Bool.NotEqualTo"@, 2, Type::Boolean)
    &&& has_sig(sigs, "Bool.And"@, 2, Type::Boolean)
    &&& has_sig(sigs, "Bool.Or"@, 2, Type::Boolean)
    &&& has_sig(sigs, "Bool.Not"@, 1, Type::Boolean)
    &&& has_sig(sigs, "Value.EqualTo"@, 2, Type::Boolean)
    &&& has_sig(sigs, "Value.NotEqualTo"@, 2, Type::Boolean)
}

/// The shape of the registry a machine runs with: the standard library's
/// twenty-two operator functions first, then the host's signatures, in
/// order and with their names, parameters and return types kept.
pub open spec fn runtime_library_shape(lib: Library, host: Library) -> bool {
    &&& has_standard_signatures(lib.functions@)
    &&& lib.functions@.len() == 22 + host.functions@.len()
    &&& forall|j: int|
        0 <= j < host.functions@.len() ==> {
            &&& (#[trigger] lib.functions@[22 + j]).name@ == host.functions@[j].name@
            &&& lib.functions@[22 + j].parameters@ == host.functions@[j].parameters@
            &&& lib.functions@[22 + j].return_type == host.functions@[j].return_type
        }
}

/// The shape of a registry grown from the machine's seed: it begins with
/// the standard library's twenty-two operator functions, then the host's
/// signatures in order with names, parameters and return types kept;
/// further signatures may follow.
pub open spec fn runtime_library_seeded(lib: Library, host: Library) -> bool {
    &&& has_standard_signatures(lib.functions@)
    &&& lib.functions@.len() >= 22 + host.functions@.len()
    &&& forall|j: int|
        0 <= j < host.functions@.len() ==> {
            &&& (#[trigger] lib.functions@[22 + j]).name@ == host.functions@[j].name@
            &&& lib.functions@[22 + j].parameters@ == host.functions@[j].parameters@
            &&& lib.functions@[22 + j].return_type == host.functions@[j].return_type
        }
}

/// Law: a signature set keeps everything it holds when extended at the end.
pub proof fn lemma_has_sig_extend(a: Seq<FunctionSignature>, b: Seq<FunctionSignature>)
    ensures
        forall|n: Seq<char>, ar: int, t: Type|
            has_sig(a, n, ar, t) ==> has_sig(a + b, n, ar, t),
{
    assert forall|n: Seq<char>, ar: int, t: Type| has_sig(a, n, ar, t) implies has_sig(
        a + b,
        n,
        ar,
        t,
    ) by {
        let i = choose|i: int|
            0 <= i < a.len() && (#[trigger] a[i]).name@ == n && a[i].parameters@.len() == ar
                && a[i].return_type == t;
        assert((a + b)[i] == a[i]);
    }
}

fn reg(lib: &mut Library, name: &str, parameters: Vec<Type>, return_type: Type)
    ensures
        final(lib).functions@.len() == old(lib).functions@.len() + 1,
        final(lib).functions@.subrange(0, old(lib).functions@.len() as int) == old(
            lib,
        ).functions@,
        final(lib).functions@.last().name@ == name@,
        final(lib).functions@.last().parameters == parameters,
        final(lib).functions@.last().return_type == return_type,
        has_sig(final(lib).functions@, name@, parameters@.len() as int, return_type),
        forall|n: Seq<char>, a: int, t: Type|
            has_sig(old(lib).functions@, n, a, t) ==> has_sig(final(lib).functions@, n, a, t),
{
    let owned = String::from_str(name);
    lib.add_function(owned, parameters, return_type);
    proof {
        let s = lib.functions@;
        assert(s.subrange(0, s.len() - 1) =~= old(lib).functions@);
        assert(s[s.len() - 1].name@ == name@);
        assert forall|n: Seq<char>, a: int, t: Type|
            has_sig(old(lib).functions@, n, a, t) implies has_sig(s, n, a, t) by {
            let i = choose|i: int|
                0 <= i < old(lib).functions@.len() && (#[trigger] old(lib).functions@[i]).name@
                    == n && old(lib).functions@[i].parameters@.len() == a && old(
                    lib,
                ).functions@[i].return_type == t;
            assert(s[i] == old(lib).functions@[i]);
        }
    }
}

/// The standard library: the functions that operators are lowered to.
///
/// Each arithmetic, comparison and logical operator of the language has a
/// named function here; code generation emits calls against these names and
/// the virtual machine implements them.
pub fn standard_library() -> (r: Library)
    ensures
        has_standard_signatures(r.functions@),
        r.functions@.len() == 22,

        r.functions@[0].name@ == "Number.Add"@,
        r.functions@[1].name@ == "Number.Subtract"@,
        r.functions@[2].name@ == "Number.Multiply"@,
        r.functions@[3].name@ == "Number.Divide"@,
        r.functions@[4].name@ == "Number.Modulo"@,
        r.functions@[5].name@ == "Number.UnaryMinus"@,
        r.functions@[6].name@ == "Number.EqualTo"@,
        r.functions@[7].name@ == "Number.NotEqualTo"@,
        r.functions@[8].name@ == "Number.LessThan"@,
        r.functions@[9].name@ == "Number.LessThanOrEqualTo"@,
        r.functions@[10].name@ == "Number.GreaterThan"@,
        r.functions@[11].name@ == "Number.GreaterThanOrEqualTo"@,
        r.functions@[12].name@ == "String.Concat"@,
        r.functions@[13].name@ == "String.EqualTo"@,
        r.functions@[14].name@ == "String.NotEqualTo"@,
        r.functions@[15].name@ == "Bool.EqualTo"@,
        r.functions@[16].name@ == "Bool.NotEqualTo"@,
        r.functions@[17].name@ == "Bool.And"@,
        r.functions@[18].name@ == "Bool.Or"@,
        r.functions@[19].name@ == "Bool.Not"@,
        r.functions@[20].name@ == "Value.EqualTo"@,
        r.functions@[21].name@ == "Value.NotEqualTo"@,
{
    let mut lib = Library::new();
    let n = Type::Number;
    let t = Type::Text;
    let b = Type::Boolean;
    let a = Type::Any;
    reg(&mut lib, "Number.Add", vec![n, n], n);
    reg(&mut lib, "Number.Subtract", vec![n, n], n);
    reg(&mut lib, "Number.Multiply", vec![n, n], n);
    reg(&mut lib, "Number.Divide", vec![n, n], n);
    reg(&mut lib, "Number.Modulo", vec![n, n], n);
    reg(&mut lib, "Number.UnaryMinus", vec![n], n);
    reg(&mut lib, "Number.EqualTo", vec![n, n], b);
    reg(&mut lib, "Number.NotEqualTo", vec![n, n], b);
    reg(&mut lib, "Number.LessThan", vec![n, n], b);
    reg(&mut lib, "Number.LessThanOrEqualTo", vec![n, n], b);
    reg(&mut lib, "Number.GreaterThan", vec![n, n], b);
    reg(&mut lib, "Number.GreaterThanOrEqualTo", vec![n, n], b);
    reg(&mut lib, "String.Concat", vec![t, t], t);
    reg(&mut lib, "String.EqualTo", vec![t, t], b);
    reg(&mut lib, "String.NotEqualTo", vec![t, t], b);
    reg(&mut lib, "Bool.EqualTo", vec![b, b], b);
    reg(&mut lib, "Bool.NotEqualTo", vec![b, b], b);
    reg(&mut lib, "Bool.And", vec![b, b], b);
    reg(&mut lib, "Bool.Or", vec![b, b], b);
    reg(&mut lib, "Bool.Not", vec![b], b);
    reg(&mut lib, "Value.EqualTo", vec![a, a], b);
    reg(&mut lib, "Value.NotEqualTo", vec![a, a], b);
    lib
}

} // verus!
