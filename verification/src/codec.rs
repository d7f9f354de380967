//! The stable binary form of a compiled program, for cross-session
//! persistence: format version, node count, and per node its name, tags,
//! headers, label table and instruction stream, then the initial values
//! table.
//!
//! Serialization is verified to produce exactly the encoding the
//! specification functions describe. Deserialization parses and then
//! re-serializes what it parsed, accepting only on an exact byte match, so
//! every accepted program re-encodes to the given bytes; together with the
//! faithfulness law — equal encodings mean equivalent programs — a
//! deserialized serialization is equivalent to the program it came from.

use vstd::prelude::*;
use crate::program::{Instruction, Node, Program};
use crate::text::push_char;
use crate::value::{Value, value_eq};

verus! {

broadcast use vstd::std_specs::vec::group_vec_axioms;

/// The format version written first.
pub const FORMAT_VERSION: u8 = 1;

/// A machine word, little-endian.
pub open spec fn enc_u64(x: u64) -> Seq<u8> {
    seq![
        (x & 0xff) as u8,
        ((x >> 8) & 0xff) as u8,
        ((x >> 16) & 0xff) as u8,
        ((x >> 24) & 0xff) as u8,
        ((x >> 32) & 0xff) as u8,
        ((x >> 40) & 0xff) as u8,
        ((x >> 48) & 0xff) as u8,
        ((x >> 56) & 0xff) as u8,
    ]
}

/// One character's code point, four bytes little-endian.
pub open spec fn enc_char4(c: char) -> Seq<u8> {
    seq![
        ((c as u32) & 0xff) as u8,
        (((c as u32) >> 8) & 0xff) as u8,
        (((c as u32) >> 16) & 0xff) as u8,
        (((c as u32) >> 24) & 0xff) as u8,
    ]
}

/// The characters of a string, four bytes each.
pub open spec fn enc_chars(s: Seq<char>) -> Seq<u8>
    decreases s.len(),
{
    if s.len() == 0 {
        Seq::empty()
    } else {
        enc_char4(s[0]) + enc_chars(s.drop_first())
    }
}

/// A string: its character count, then its characters.
pub open spec fn enc_str(s: Seq<char>) -> Seq<u8> {
    enc_u64(s.len() as u64) + enc_chars(s)
}

/// A length-prefixed block of bytes.
pub open spec fn enc_block(b: Seq<u8>) -> Seq<u8> {
    enc_u64(b.len() as u64) + b
}

/// A value: a tag byte, then its payload.
pub open spec fn enc_value(v: Value) -> Seq<u8> {
    match v {
        Value::Number(n) => seq![0u8] + enc_u64(n as u64),
        Value::Text(s) => seq![1u8] + enc_str(s@),
        Value::Boolean(b) => seq![2u8, if b { 1u8 } else { 0u8 }],
        Value::Null => seq![3u8],
    }
}

/// An instruction: a tag byte, then its operands.
pub open spec fn enc_instruction(i: Instruction) -> Seq<u8> {
    match i {
        Instruction::JumpTo(t) => seq![0u8] + enc_u64(t as u64),
        Instruction::JumpIfFalse(t) => seq![1u8] + enc_u64(t as u64),
        Instruction::Jump => seq![2u8],
        Instruction::RunLine(id, k) => seq![3u8] + enc_str(id@) + enc_u64(k as u64),
        Instruction::RunCommand(text, k) => seq![4u8] + enc_str(text@) + enc_u64(k as u64),
        Instruction::AddOption(id, d, k, c) => seq![5u8] + enc_str(id@) + enc_u64(d as u64)
            + enc_u64(k as u64) + seq![if c { 1u8 } else { 0u8 }],
        Instruction::ShowOptions => seq![6u8],
        Instruction::PushString(s) => seq![7u8] + enc_str(s@),
        Instruction::PushNumber(n) => seq![8u8] + enc_u64(n as u64),
        Instruction::PushBool(b) => seq![9u8, if b { 1u8 } else { 0u8 }],
        Instruction::PushNull => seq![10u8],
        Instruction::Pop => seq![11u8],
        Instruction::CallFunc(name) => seq![12u8] + enc_str(name@),
        Instruction::PushVariable(name) => seq![13u8] + enc_str(name@),
        Instruction::StoreVariable(name) => seq![14u8] + enc_str(name@),
        Instruction::Stop => seq![15u8],
        Instruction::RunNode => seq![16u8],
        Instruction::AddSaltyDeterministicShuffleToQueue => seq![17u8],
    }
}

/// A label binding: its name, then its position.
pub open spec fn enc_label(l: (String, usize)) -> Seq<u8> {
    enc_str(l.0@) + enc_u64(l.1 as u64)
}

/// A header: its key, then its value.
pub open spec fn enc_header(h: (String, String)) -> Seq<u8> {
    enc_str(h.0@) + enc_str(h.1@)
}

/// An initial value binding: the variable's name, then its value.
pub open spec fn enc_initial(b: (String, Value)) -> Seq<u8> {
    enc_str(b.0@) + enc_value(b.1)
}

/// A sequence of instruction blocks.
pub open spec fn enc_instructions(v: Seq<Instruction>) -> Seq<u8>
    decreases v.len(),
{
    if v.len() == 0 {
        Seq::empty()
    } else {
        enc_block(enc_instruction(v[0])) + enc_instructions(v.drop_first())
    }
}

/// A sequence of label blocks.
pub open spec fn enc_labels(v: Seq<(String, usize)>) -> Seq<u8>
    decreases v.len(),
{
    if v.len() == 0 {
        Seq::empty()
    } else {
        enc_block(enc_label(v[0])) + enc_labels(v.drop_first())
    }
}

/// One string as a sequence element.
pub open spec fn enc_string_elem(s: String) -> Seq<u8> {
    enc_str(s@)
}

/// A sequence of string blocks.
pub open spec fn enc_strings(v: Seq<String>) -> Seq<u8>
    decreases v.len(),
{
    if v.len() == 0 {
        Seq::empty()
    } else {
        enc_block(enc_string_elem(v[0])) + enc_strings(v.drop_first())
    }
}

/// A sequence of header blocks.
pub open spec fn enc_headers(v: Seq<(String, String)>) -> Seq<u8>
    decreases v.len(),
{
    if v.len() == 0 {
        Seq::empty()
    } else {
        enc_block(enc_header(v[0])) + enc_headers(v.drop_first())
    }
}

/// A sequence of initial value blocks.
pub open spec fn enc_initials(v: Seq<(String, Value)>) -> Seq<u8>
    decreases v.len(),
{
    if v.len() == 0 {
        Seq::empty()
    } else {
        enc_block(enc_initial(v[0])) + enc_initials(v.drop_first())
    }
}

/// A node: name, source file, instructions, labels, tags and headers, each
/// sequence with its count first.
#[verifier::opaque]
pub open spec fn enc_node(n: Node) -> Seq<u8> {
    enc_str(n.name@) + (enc_str(n.source_file@) + (enc_u64(n.instructions@.len() as u64) + (
    enc_instructions(n.instructions@) + (enc_u64(n.labels@.len() as u64) + (enc_labels(n.labels@)
        + (enc_u64(n.tags@.len() as u64) + (enc_strings(n.tags@) + (enc_u64(
        n.headers@.len() as u64,
    ) + enc_headers(n.headers@)))))))))
}

/// A sequence of node blocks.
pub open spec fn enc_nodes(v: Seq<Node>) -> Seq<u8>
    decreases v.len(),
{
    if v.len() == 0 {
        Seq::empty()
    } else {
        enc_block(enc_node(v[0])) + enc_nodes(v.drop_first())
    }
}

/// A program: the format version, the nodes with their count, and the
/// initial values with theirs.
pub open spec fn enc_program(p: Program) -> Seq<u8> {
    seq![FORMAT_VERSION] + (enc_u64(p.nodes@.len() as u64) + (enc_nodes(p.nodes@) + (enc_u64(
        p.initial_values@.len() as u64,
    ) + enc_initials(p.initial_values@))))
}

// ---------------------------------------------------------------------
// Equivalence of decoded structures: equality at the view level.

/// Two instructions are the same instruction with the same operands.
pub open spec fn instruction_equiv(a: Instruction, b: Instruction) -> bool {
    match (a, b) {
        (Instruction::JumpTo(x), Instruction::JumpTo(y)) => x == y,
        (Instruction::JumpIfFalse(x), Instruction::JumpIfFalse(y)) => x == y,
        (Instruction::Jump, Instruction::Jump) => true,
        (Instruction::RunLine(i1, k1), Instruction::RunLine(i2, k2)) => i1@ == i2@ && k1 == k2,
        (Instruction::RunCommand(t1, k1), Instruction::RunCommand(t2, k2)) => t1@ == t2@ && k1
            == k2,
        (Instruction::AddOption(i1, d1, k1, c1), Instruction::AddOption(i2, d2, k2, c2)) => i1@
            == i2@ && d1 == d2 && k1 == k2 && c1 == c2,
        (Instruction::ShowOptions, Instruction::ShowOptions) => true,
        (Instruction::PushString(s1), Instruction::PushString(s2)) => s1@ == s2@,
        (Instruction::PushNumber(n1), Instruction::PushNumber(n2)) => n1 == n2,
        (Instruction::PushBool(b1), Instruction::PushBool(b2)) => b1 == b2,
        (Instruction::PushNull, Instruction::PushNull) => true,
        (Instruction::Pop, Instruction::Pop) => true,
        (Instruction::CallFunc(n1), Instruction::CallFunc(n2)) => n1@ == n2@,
        (Instruction::PushVariable(n1), Instruction::PushVariable(n2)) => n1@ == n2@,
        (Instruction::StoreVariable(n1), Instruction::StoreVariable(n2)) => n1@ == n2@,
        (Instruction::Stop, Instruction::Stop) => true,
        (Instruction::RunNode, Instruction::RunNode) => true,
        (
            Instruction::AddSaltyDeterministicShuffleToQueue,
            Instruction::AddSaltyDeterministicShuffleToQueue,
        ) => true,
        _ => false,
    }
}

/// Two nodes are the same at the view level: same name, source, code,
/// labels, tags and headers.
pub open spec fn node_equiv(a: Node, b: Node) -> bool {
    &&& a.name@ == b.name@
    &&& a.source_file@ == b.source_file@
    &&& a.instructions@.len() == b.instructions@.len()
    &&& forall|i: int|
        0 <= i < a.instructions@.len() ==> instruction_equiv(
            #[trigger] a.instructions@[i],
            b.instructions@[i],
        )
    &&& a.labels@.len() == b.labels@.len()
    &&& forall|i: int|
        0 <= i < a.labels@.len() ==> (#[trigger] a.labels@[i]).0@ == b.labels@[i].0@
            && a.labels@[i].1 == b.labels@[i].1
    &&& a.tags@.len() == b.tags@.len()
    &&& forall|i: int| 0 <= i < a.tags@.len() ==> (#[trigger] a.tags@[i])@ == b.tags@[i]@
    &&& a.headers@.len() == b.headers@.len()
    &&& forall|i: int|
        0 <= i < a.headers@.len() ==> (#[trigger] a.headers@[i]).0@ == b.headers@[i].0@
            && a.headers@[i].1@ == b.headers@[i].1@
}

/// Two programs are the same at the view level: they execute alike,
/// because execution reads nothing but these views.
pub open spec fn program_equiv(a: Program, b: Program) -> bool {
    &&& a.nodes@.len() == b.nodes@.len()
    &&& forall|i: int| 0 <= i < a.nodes@.len() ==> node_equiv(#[trigger] a.nodes@[i], b.nodes@[i])
    &&& a.initial_values@.len() == b.initial_values@.len()
    &&& forall|i: int|
        0 <= i < a.initial_values@.len() ==> (#[trigger] a.initial_values@[i]).0@
            == b.initial_values@[i].0@ && value_eq(a.initial_values@[i].1, b.initial_values@[i].1)
}

// ---------------------------------------------------------------------
// The verified serializer.

fn write_u64(out: &mut Vec<u8>, x: u64)
    ensures
        final(out)@ == old(out)@ + enc_u64(x),
{
    out.push((x & 0xff) as u8);
    out.push(((x >> 8) & 0xff) as u8);
    out.push(((x >> 16) & 0xff) as u8);
    out.push(((x >> 24) & 0xff) as u8);
    out.push(((x >> 32) & 0xff) as u8);
    out.push(((x >> 40) & 0xff) as u8);
    out.push(((x >> 48) & 0xff) as u8);
    out.push(((x >> 56) & 0xff) as u8);
    proof {
        assert(final(out)@ =~= old(out)@ + enc_u64(x));
    }
}

proof fn lemma_snoc_chars(v: Seq<char>, i: int)
    requires
        0 <= i < v.len(),
    ensures
        enc_chars(v.subrange(0, i + 1)) == enc_chars(v.subrange(0, i)) + enc_char4(v[i]),
    decreases i,
{
    let a = v.subrange(0, i + 1);
    let b = v.subrange(0, i);
    assert(a[0] == v[0]);
    if i == 0 {
        assert(a.drop_first() =~= Seq::<char>::empty());
        assert(enc_chars(a.drop_first()) == Seq::<u8>::empty());
        assert(enc_chars(b) == Seq::<u8>::empty());
        assert(enc_chars(a) =~= enc_chars(b) + enc_char4(v[i]));
    } else {
        assert(b[0] == v[0]);
        lemma_snoc_chars(v.drop_first(), i - 1);
        assert(a.drop_first() =~= v.drop_first().subrange(0, i));
        assert(b.drop_first() =~= v.drop_first().subrange(0, i - 1));
        assert(v.drop_first()[i - 1] == v[i]);
        assert(enc_chars(a) =~= enc_chars(b) + enc_char4(v[i]));
    }
}

fn write_str(out: &mut Vec<u8>, s: &str)
    ensures
        final(out)@ == old(out)@ + enc_str(s@),
{
    let chars = crate::text::str_to_chars(s);
    let n = chars.len();
    write_u64(out, n as u64);
    let mut i: usize = 0;
    while i < n
        invariant
            n == chars@.len(),
            chars@ == s@,
            i <= n,
            out@ == old(out)@ + enc_u64(n as u64) + enc_chars(s@.subrange(0, i as int)),
        decreases n - i,
    {
        let c = chars[i] as u32;
        out.push((c & 0xff) as u8);
        out.push(((c >> 8) & 0xff) as u8);
        out.push(((c >> 16) & 0xff) as u8);
        out.push(((c >> 24) & 0xff) as u8);
        proof {
            lemma_snoc_chars(s@, i as int);
            assert(out@ =~= old(out)@ + enc_u64(n as u64) + enc_chars(s@.subrange(0, i + 1)));
        }
        i += 1;
    }
    proof {
        assert(s@.subrange(0, s@.len() as int) =~= s@);
        assert(out@ =~= old(out)@ + enc_str(s@));
    }
}

fn append_bytes(out: &mut Vec<u8>, src: Vec<u8>)
    ensures
        final(out)@ == old(out)@ + src@,
{
    let mut rest = src;
    let ghost all = rest@;
    while rest.len() > 0
        invariant
            out@ + rest@ == old(out)@ + all,
        decreases rest@.len(),
    {
        let b = rest.remove(0);
        out.push(b);
        proof {
            assert(out@ + rest@ =~= old(out)@ + all);
        }
    }
    proof {
        assert(out@ =~= out@ + rest@);
    }
}

fn write_block(out: &mut Vec<u8>, inner: Vec<u8>)
    ensures
        final(out)@ == old(out)@ + enc_block(inner@),
{
    write_u64(out, inner.len() as u64);
    append_bytes(out, inner);
    proof {
        assert(final(out)@ =~= old(out)@ + enc_block(inner@));
    }
}

fn write_value(out: &mut Vec<u8>, v: &Value)
    ensures
        final(out)@ == old(out)@ + enc_value(*v),
{
    match v {
        Value::Number(n) => {
            out.push(0u8);
            write_u64(out, *n as u64);
        },
        Value::Text(s) => {
            out.push(1u8);
            write_str(out, s.as_str());
        },
        Value::Boolean(b) => {
            out.push(2u8);
            out.push(if *b { 1u8 } else { 0u8 });
        },
        Value::Null => {
            out.push(3u8);
        },
    }
    proof {
        assert(final(out)@ =~= old(out)@ + enc_value(*v));
    }
}

fn write_instruction(out: &mut Vec<u8>, i: &Instruction)
    ensures
        final(out)@ == old(out)@ + enc_instruction(*i),
{
    match i {
        Instruction::JumpTo(t) => {
            out.push(0u8);
            write_u64(out, *t as u64);
        },
        Instruction::JumpIfFalse(t) => {
            out.push(1u8);
            write_u64(out, *t as u64);
        },
        Instruction::Jump => {
            out.push(2u8);
        },
        Instruction::RunLine(id, k) => {
            out.push(3u8);
            write_str(out, id.as_str());
            write_u64(out, *k as u64);
        },
        Instruction::RunCommand(text, k) => {
            out.push(4u8);
            write_str(out, text.as_str());
            write_u64(out, *k as u64);
        },
        Instruction::AddOption(id, d, k, c) => {
            out.push(5u8);
            write_str(out, id.as_str());
            write_u64(out, *d as u64);
            write_u64(out, *k as u64);
            out.push(if *c { 1u8 } else { 0u8 });
        },
        Instruction::ShowOptions => {
            out.push(6u8);
        },
        Instruction::PushString(s) => {
            out.push(7u8);
            write_str(out, s.as_str());
        },
        Instruction::PushNumber(n) => {
            out.push(8u8);
            write_u64(out, *n as u64);
        },
        Instruction::PushBool(b) => {
            out.push(9u8);
            out.push(if *b { 1u8 } else { 0u8 });
        },
        Instruction::PushNull => {
            out.push(10u8);
        },
        Instruction::Pop => {
            out.push(11u8);
        },
        Instruction::CallFunc(name) => {
            out.push(12u8);
            write_str(out, name.as_str());
        },
        Instruction::PushVariable(name) => {
            out.push(13u8);
            write_str(out, name.as_str());
        },
        Instruction::StoreVariable(name) => {
            out.push(14u8);
            write_str(out, name.as_str());
        },
        Instruction::Stop => {
            out.push(15u8);
        },
        Instruction::RunNode => {
            out.push(16u8);
        },
        Instruction::AddSaltyDeterministicShuffleToQueue => {
            out.push(17u8);
        },
    }
    proof {
        assert(final(out)@ =~= old(out)@ + enc_instruction(*i));
    }
}

proof fn lemma_snoc_instructions(v: Seq<Instruction>, i: int)
    requires
        0 <= i < v.len(),
    ensures
        enc_instructions(v.subrange(0, i + 1)) == enc_instructions(v.subrange(0, i)) + enc_block(
            enc_instruction(v[i]),
        ),
    decreases i,
{
    let a = v.subrange(0, i + 1);
    let b = v.subrange(0, i);
    assert(a[0] == v[0]);
    if i == 0 {
        assert(a.drop_first() =~= Seq::<Instruction>::empty());
        assert(enc_instructions(a.drop_first()) == Seq::<u8>::empty());
        assert(enc_instructions(b) == Seq::<u8>::empty());
        assert(enc_instructions(a) =~= enc_instructions(b) + enc_block(enc_instruction(v[i])));
    } else {
        assert(b[0] == v[0]);
        lemma_snoc_instructions(v.drop_first(), i - 1);
        assert(a.drop_first() =~= v.drop_first().subrange(0, i));
        assert(b.drop_first() =~= v.drop_first().subrange(0, i - 1));
        assert(v.drop_first()[i - 1] == v[i]);
        assert(enc_instructions(a) =~= enc_instructions(b) + enc_block(enc_instruction(v[i])));
    }
}

fn write_instructions(out: &mut Vec<u8>, v: &Vec<Instruction>)
    ensures
        final(out)@ == old(out)@ + enc_u64(v@.len() as u64) + enc_instructions(v@),
{
    write_u64(out, v.len() as u64);
    let mut i: usize = 0;
    proof {
        assert(enc_instructions(v@.subrange(0, 0)) =~= Seq::<u8>::empty());
        assert(out@ =~= old(out)@ + enc_u64(v@.len() as u64) + enc_instructions(
            v@.subrange(0, 0),
        ));
    }
    while i < v.len()
        invariant
            i <= v@.len(),
            out@ == old(out)@ + enc_u64(v@.len() as u64) + enc_instructions(
                v@.subrange(0, i as int),
            ),
        decreases v@.len() - i,
    {
        let mut inner: Vec<u8> = Vec::new();
        write_instruction(&mut inner, &v[i]);
        write_block(out, inner);
        proof {
            lemma_snoc_instructions(v@, i as int);
        }
        i += 1;
    }
    proof {
        assert(v@.subrange(0, v@.len() as int) =~= v@);
    }
}


proof fn lemma_snoc_labels(v: Seq<(String, usize)>, i: int)
    requires
        0 <= i < v.len(),
    ensures
        enc_labels(v.subrange(0, i + 1)) == enc_labels(v.subrange(0, i)) + enc_block(
            enc_label(v[i]),
        ),
    decreases i,
{
    let a = v.subrange(0, i + 1);
    let b = v.subrange(0, i);
    assert(a[0] == v[0]);
    if i == 0 {
        assert(a.drop_first() =~= Seq::<(String, usize)>::empty());
        assert(enc_labels(a.drop_first()) == Seq::<u8>::empty());
        assert(enc_labels(b) == Seq::<u8>::empty());
        assert(enc_labels(a) =~= enc_labels(b) + enc_block(enc_label(v[i])));
    } else {
        assert(b[0] == v[0]);
        lemma_snoc_labels(v.drop_first(), i - 1);
        assert(a.drop_first() =~= v.drop_first().subrange(0, i));
        assert(b.drop_first() =~= v.drop_first().subrange(0, i - 1));
        assert(v.drop_first()[i - 1] == v[i]);
        assert(enc_labels(a) =~= enc_labels(b) + enc_block(enc_label(v[i])));
    }
}

fn write_labels(out: &mut Vec<u8>, v: &Vec<(String, usize)>)
    ensures
        final(out)@ == old(out)@ + enc_u64(v@.len() as u64) + enc_labels(v@),
{
    write_u64(out, v.len() as u64);
    let mut i: usize = 0;
    proof {
        assert(enc_labels(v@.subrange(0, 0)) =~= Seq::<u8>::empty());
        assert(out@ =~= old(out)@ + enc_u64(v@.len() as u64) + enc_labels(v@.subrange(0, 0)));
    }
    while i < v.len()
        invariant
            i <= v@.len(),
            out@ == old(out)@ + enc_u64(v@.len() as u64) + enc_labels(v@.subrange(0, i as int)),
        decreases v@.len() - i,
    {
        let mut inner: Vec<u8> = Vec::new();
        write_str(&mut inner, v[i].0.as_str());
        write_u64(&mut inner, v[i].1 as u64);
        proof {
            assert(inner@ =~= enc_label(v@[i as int]));
        }
        write_block(out, inner);
        proof {
            lemma_snoc_labels(v@, i as int);
        }
        i += 1;
    }
    proof {
        assert(v@.subrange(0, v@.len() as int) =~= v@);
    }
}


proof fn lemma_snoc_strings(v: Seq<String>, i: int)
    requires
        0 <= i < v.len(),
    ensures
        enc_strings(v.subrange(0, i + 1)) == enc_strings(v.subrange(0, i)) + enc_block(
            enc_string_elem(v[i]),
        ),
    decreases i,
{
    let a = v.subrange(0, i + 1);
    let b = v.subrange(0, i);
    assert(a[0] == v[0]);
    if i == 0 {
        assert(a.drop_first() =~= Seq::<String>::empty());
        assert(enc_strings(a.drop_first()) == Seq::<u8>::empty());
        assert(enc_strings(b) == Seq::<u8>::empty());
        assert(enc_strings(a) =~= enc_strings(b) + enc_block(enc_string_elem(v[i])));
    } else {
        assert(b[0] == v[0]);
        lemma_snoc_strings(v.drop_first(), i - 1);
        assert(a.drop_first() =~= v.drop_first().subrange(0, i));
        assert(b.drop_first() =~= v.drop_first().subrange(0, i - 1));
        assert(v.drop_first()[i - 1] == v[i]);
        assert(enc_strings(a) =~= enc_strings(b) + enc_block(enc_string_elem(v[i])));
    }
}

fn write_strings(out: &mut Vec<u8>, v: &Vec<String>)
    ensures
        final(out)@ == old(out)@ + enc_u64(v@.len() as u64) + enc_strings(v@),
{
    write_u64(out, v.len() as u64);
    let mut i: usize = 0;
    proof {
        assert(enc_strings(v@.subrange(0, 0)) =~= Seq::<u8>::empty());
        assert(out@ =~= old(out)@ + enc_u64(v@.len() as u64) + enc_strings(v@.subrange(0, 0)));
    }
    while i < v.len()
        invariant
            i <= v@.len(),
            out@ == old(out)@ + enc_u64(v@.len() as u64) + enc_strings(v@.subrange(0, i as int)),
        decreases v@.len() - i,
    {
        let mut inner: Vec<u8> = Vec::new();
        write_str(&mut inner, v[i].as_str());
        proof {
            assert(inner@ =~= enc_string_elem(v@[i as int]));
        }
        write_block(out, inner);
        proof {
            lemma_snoc_strings(v@, i as int);
        }
        i += 1;
    }
    proof {
        assert(v@.subrange(0, v@.len() as int) =~= v@);
    }
}


proof fn lemma_snoc_headers(v: Seq<(String, String)>, i: int)
    requires
        0 <= i < v.len(),
    ensures
        enc_headers(v.subrange(0, i + 1)) == enc_headers(v.subrange(0, i)) + enc_block(
            enc_header(v[i]),
        ),
    decreases i,
{
    let a = v.subrange(0, i + 1);
    let b = v.subrange(0, i);
    assert(a[0] == v[0]);
    if i == 0 {
        assert(a.drop_first() =~= Seq::<(String, String)>::empty());
        assert(enc_headers(a.drop_first()) == Seq::<u8>::empty());
        assert(enc_headers(b) == Seq::<u8>::empty());
        assert(enc_headers(a) =~= enc_headers(b) + enc_block(enc_header(v[i])));
    } else {
        assert(b[0] == v[0]);
        lemma_snoc_headers(v.drop_first(), i - 1);
        assert(a.drop_first() =~= v.drop_first().subrange(0, i));
        assert(b.drop_first() =~= v.drop_first().subrange(0, i - 1));
        assert(v.drop_first()[i - 1] == v[i]);
        assert(enc_headers(a) =~= enc_headers(b) + enc_block(enc_header(v[i])));
    }
}

fn write_headers(out: &mut Vec<u8>, v: &Vec<(String, String)>)
    ensures
        final(out)@ == old(out)@ + enc_u64(v@.len() as u64) + enc_headers(v@),
{
    write_u64(out, v.len() as u64);
    let mut i: usize = 0;
    proof {
        assert(enc_headers(v@.subrange(0, 0)) =~= Seq::<u8>::empty());
        assert(out@ =~= old(out)@ + enc_u64(v@.len() as u64) + enc_headers(v@.subrange(0, 0)));
    }
    while i < v.len()
        invariant
            i <= v@.len(),
            out@ == old(out)@ + enc_u64(v@.len() as u64) + enc_headers(v@.subrange(0, i as int)),
        decreases v@.len() - i,
    {
        let mut inner: Vec<u8> = Vec::new();
        write_str(&mut inner, v[i].0.as_str());
        write_str(&mut inner, v[i].1.as_str());
        proof {
            assert(inner@ =~= enc_header(v@[i as int]));
        }
        write_block(out, inner);
        proof {
            lemma_snoc_headers(v@, i as int);
        }
        i += 1;
    }
    proof {
        assert(v@.subrange(0, v@.len() as int) =~= v@);
    }
}


proof fn lemma_snoc_initials(v: Seq<(String, Value)>, i: int)
    requires
        0 <= i < v.len(),
    ensures
        enc_initials(v.subrange(0, i + 1)) == enc_initials(v.subrange(0, i)) + enc_block(
            enc_initial(v[i]),
        ),
    decreases i,
{
    let a = v.subrange(0, i + 1);
    let b = v.subrange(0, i);
    assert(a[0] == v[0]);
    if i == 0 {
        assert(a.drop_first() =~= Seq::<(String, Value)>::empty());
        assert(enc_initials(a.drop_first()) == Seq::<u8>::empty());
        assert(enc_initials(b) == Seq::<u8>::empty());
        assert(enc_initials(a) =~= enc_initials(b) + enc_block(enc_initial(v[i])));
    } else {
        assert(b[0] == v[0]);
        lemma_snoc_initials(v.drop_first(), i - 1);
        assert(a.drop_first() =~= v.drop_first().subrange(0, i));
        assert(b.drop_first() =~= v.drop_first().subrange(0, i - 1));
        assert(v.drop_first()[i - 1] == v[i]);
        assert(enc_initials(a) =~= enc_initials(b) + enc_block(enc_initial(v[i])));
    }
}

fn write_initials(out: &mut Vec<u8>, v: &Vec<(String, Value)>)
    ensures
        final(out)@ == old(out)@ + enc_u64(v@.len() as u64) + enc_initials(v@),
{
    write_u64(out, v.len() as u64);
    let mut i: usize = 0;
    proof {
        assert(enc_initials(v@.subrange(0, 0)) =~= Seq::<u8>::empty());
        assert(out@ =~= old(out)@ + enc_u64(v@.len() as u64) + enc_initials(v@.subrange(0, 0)));
    }
    while i < v.len()
        invariant
            i <= v@.len(),
            out@ == old(out)@ + enc_u64(v@.len() as u64) + enc_initials(v@.subrange(0, i as int)),
        decreases v@.len() - i,
    {
        let mut inner: Vec<u8> = Vec::new();
        write_str(&mut inner, v[i].0.as_str());
        write_value(&mut inner, &v[i].1);
        proof {
            assert(inner@ =~= enc_initial(v@[i as int]));
        }
        write_block(out, inner);
        proof {
            lemma_snoc_initials(v@, i as int);
        }
        i += 1;
    }
    proof {
        assert(v@.subrange(0, v@.len() as int) =~= v@);
    }
}


#[verifier::rlimit(100)]
#[verifier::spinoff_prover]
proof fn lemma_snoc_nodes(v: Seq<Node>, i: int)
    requires
        0 <= i < v.len(),
    ensures
        enc_nodes(v.subrange(0, i + 1)) == enc_nodes(v.subrange(0, i)) + enc_block(
            enc_node(v[i]),
        ),
    decreases i,
{
    let a = v.subrange(0, i + 1);
    let b = v.subrange(0, i);
    assert(a[0] == v[0]);
    if i == 0 {
        assert(a.drop_first() =~= Seq::<Node>::empty());
        assert(enc_nodes(a.drop_first()) == Seq::<u8>::empty());
        assert(enc_nodes(b) == Seq::<u8>::empty());
        assert(enc_nodes(a) =~= enc_nodes(b) + enc_block(enc_node(v[i])));
    } else {
        assert(b[0] == v[0]);
        lemma_snoc_nodes(v.drop_first(), i - 1);
        assert(a.drop_first() =~= v.drop_first().subrange(0, i));
        assert(b.drop_first() =~= v.drop_first().subrange(0, i - 1));
        assert(v.drop_first()[i - 1] == v[i]);
        assert(enc_nodes(a) =~= enc_nodes(b) + enc_block(enc_node(v[i])));
    }
}

fn write_nodes(out: &mut Vec<u8>, v: &Vec<Node>)
    ensures
        final(out)@ == old(out)@ + enc_u64(v@.len() as u64) + enc_nodes(v@),
{
    write_u64(out, v.len() as u64);
    let mut i: usize = 0;
    proof {
        assert(enc_nodes(v@.subrange(0, 0)) =~= Seq::<u8>::empty());
        assert(out@ =~= old(out)@ + enc_u64(v@.len() as u64) + enc_nodes(v@.subrange(0, 0)));
    }
    while i < v.len()
        invariant
            i <= v@.len(),
            out@ == old(out)@ + enc_u64(v@.len() as u64) + enc_nodes(v@.subrange(0, i as int)),
        decreases v@.len() - i,
    {
        let mut inner: Vec<u8> = Vec::new();
        write_node(&mut inner, &v[i]);
        proof {
            assert(inner@ =~= enc_node(v@[i as int]));
        }
        write_block(out, inner);
        proof {
            lemma_snoc_nodes(v@, i as int);
        }
        i += 1;
    }
    proof {
        assert(v@.subrange(0, v@.len() as int) =~= v@);
    }
}

#[verifier::rlimit(100)]
#[verifier::spinoff_prover]
fn write_node(out: &mut Vec<u8>, n: &Node)
    ensures
        final(out)@ == old(out)@ + enc_node(*n),
{
    proof {
        reveal(enc_node);
    }
    write_str(out, n.name.as_str());
    write_str(out, n.source_file.as_str());
    write_instructions(out, &n.instructions);
    write_labels(out, &n.labels);
    write_strings(out, &n.tags);
    write_headers(out, &n.headers);
    proof {
        assert(final(out)@ =~= old(out)@ + enc_node(*n));
    }
}

/// Serializes a program into its stable binary form: exactly its encoding.
pub fn serialize_program(p: &Program) -> (r: Vec<u8>)
    ensures
        r@ == enc_program(*p),
{
    let mut out: Vec<u8> = Vec::new();
    out.push(FORMAT_VERSION);
    write_nodes(&mut out, &p.nodes);
    write_initials(&mut out, &p.initial_values);
    proof {
        assert(out@ =~= enc_program(*p));
    }
    out
}

// ---------------------------------------------------------------------
// Faithfulness: equal encodings mean equivalent structures. Every lemma
// takes encodings known to be equal (with a possibly different remainder
// after them) and recovers the equality of what was encoded and of the
// remainders.

proof fn lemma_u64_inj(x: u64, y: u64)
    requires
        enc_u64(x) == enc_u64(y),
    ensures
        x == y,
{
    assert(enc_u64(x)[0] == enc_u64(y)[0]);
    assert(enc_u64(x)[1] == enc_u64(y)[1]);
    assert(enc_u64(x)[2] == enc_u64(y)[2]);
    assert(enc_u64(x)[3] == enc_u64(y)[3]);
    assert(enc_u64(x)[4] == enc_u64(y)[4]);
    assert(enc_u64(x)[5] == enc_u64(y)[5]);
    assert(enc_u64(x)[6] == enc_u64(y)[6]);
    assert(enc_u64(x)[7] == enc_u64(y)[7]);
    assert(x == y) by (bit_vector)
        requires
            (x & 0xff) as u8 == (y & 0xff) as u8,
            ((x >> 8) & 0xff) as u8 == ((y >> 8) & 0xff) as u8,
            ((x >> 16) & 0xff) as u8 == ((y >> 16) & 0xff) as u8,
            ((x >> 24) & 0xff) as u8 == ((y >> 24) & 0xff) as u8,
            ((x >> 32) & 0xff) as u8 == ((y >> 32) & 0xff) as u8,
            ((x >> 40) & 0xff) as u8 == ((y >> 40) & 0xff) as u8,
            ((x >> 48) & 0xff) as u8 == ((y >> 48) & 0xff) as u8,
            ((x >> 56) & 0xff) as u8 == ((y >> 56) & 0xff) as u8,
    ;
}

/// Splits a leading word off two equal byte streams.
proof fn lemma_u64_prefix(x: u64, y: u64, r1: Seq<u8>, r2: Seq<u8>)
    requires
        enc_u64(x) + r1 == enc_u64(y) + r2,
    ensures
        x == y,
        r1 == r2,
{
    let a = enc_u64(x) + r1;
    let b = enc_u64(y) + r2;
    assert(enc_u64(x) =~= a.subrange(0, 8));
    assert(enc_u64(y) =~= b.subrange(0, 8));
    lemma_u64_inj(x, y);
    assert(r1 =~= a.subrange(8, a.len() as int));
    assert(r2 =~= b.subrange(8, b.len() as int));
}

proof fn lemma_char4_prefix(c1: char, c2: char, r1: Seq<u8>, r2: Seq<u8>)
    requires
        enc_char4(c1) + r1 == enc_char4(c2) + r2,
    ensures
        c1 == c2,
        r1 == r2,
{
    broadcast use vstd::utf8::char_u32_cast;

    let a = enc_char4(c1) + r1;
    let b = enc_char4(c2) + r2;
    assert(a[0] == b[0] && a[1] == b[1] && a[2] == b[2] && a[3] == b[3]);
    let u1 = c1 as u32;
    let u2 = c2 as u32;
    assert(u1 == u2) by (bit_vector)
        requires
            (u1 & 0xff) as u8 == (u2 & 0xff) as u8,
            ((u1 >> 8) & 0xff) as u8 == ((u2 >> 8) & 0xff) as u8,
            ((u1 >> 16) & 0xff) as u8 == ((u2 >> 16) & 0xff) as u8,
            ((u1 >> 24) & 0xff) as u8 == ((u2 >> 24) & 0xff) as u8,
    ;
    assert(c1 == c2);
    assert(r1 =~= a.subrange(4, a.len() as int));
    assert(r2 =~= b.subrange(4, b.len() as int));
}

proof fn lemma_chars_prefix(s1: Seq<char>, s2: Seq<char>, r1: Seq<u8>, r2: Seq<u8>)
    requires
        s1.len() == s2.len(),
        enc_chars(s1) + r1 == enc_chars(s2) + r2,
    ensures
        s1 == s2,
        r1 == r2,
    decreases s1.len(),
{
    if s1.len() == 0 {
        assert(enc_chars(s1) == Seq::<u8>::empty());
        assert(enc_chars(s2) == Seq::<u8>::empty());
        assert(r1 =~= enc_chars(s1) + r1);
        assert(r2 =~= enc_chars(s2) + r2);
    } else {
        assert(enc_char4(s1[0]) + (enc_chars(s1.drop_first()) + r1) =~= enc_chars(s1) + r1);
        assert(enc_char4(s2[0]) + (enc_chars(s2.drop_first()) + r2) =~= enc_chars(s2) + r2);
        lemma_char4_prefix(
            s1[0],
            s2[0],
            enc_chars(s1.drop_first()) + r1,
            enc_chars(s2.drop_first()) + r2,
        );
        lemma_chars_prefix(s1.drop_first(), s2.drop_first(), r1, r2);
        assert forall|i: int| 0 <= i < s1.len() implies s1[i] == s2[i] by {
            if i > 0 {
                assert(s1.drop_first()[i - 1] == s1[i]);
                assert(s2.drop_first()[i - 1] == s2[i]);
            }
        }
        assert(s1 =~= s2);
    }
}

proof fn lemma_str_prefix(s1: Seq<char>, s2: Seq<char>, r1: Seq<u8>, r2: Seq<u8>)
    requires
        s1.len() <= u64::MAX,
        s2.len() <= u64::MAX,
        enc_str(s1) + r1 == enc_str(s2) + r2,
    ensures
        s1 == s2,
        r1 == r2,
{
    assert(enc_u64(s1.len() as u64) + (enc_chars(s1) + r1) =~= enc_str(s1) + r1);
    assert(enc_u64(s2.len() as u64) + (enc_chars(s2) + r2) =~= enc_str(s2) + r2);
    lemma_u64_prefix(s1.len() as u64, s2.len() as u64, enc_chars(s1) + r1, enc_chars(s2) + r2);
    lemma_chars_prefix(s1, s2, r1, r2);
}

proof fn lemma_block_prefix(a: Seq<u8>, b: Seq<u8>, r1: Seq<u8>, r2: Seq<u8>)
    requires
        a.len() <= u64::MAX,
        b.len() <= u64::MAX,
        enc_block(a) + r1 == enc_block(b) + r2,
    ensures
        a == b,
        r1 == r2,
{
    assert(enc_u64(a.len() as u64) + (a + r1) =~= enc_block(a) + r1);
    assert(enc_u64(b.len() as u64) + (b + r2) =~= enc_block(b) + r2);
    lemma_u64_prefix(a.len() as u64, b.len() as u64, a + r1, b + r2);
    let whole = a + r1;
    assert(a =~= whole.subrange(0, a.len() as int));
    assert(b =~= (b + r2).subrange(0, b.len() as int));
    assert(r1 =~= whole.subrange(a.len() as int, whole.len() as int));
    assert(r2 =~= (b + r2).subrange(b.len() as int, (b + r2).len() as int));
}

proof fn lemma_assoc(a: Seq<u8>, b: Seq<u8>, c: Seq<u8>)
    ensures
        (a + b) + c == a + (b + c),
{
    assert((a + b) + c =~= a + (b + c));
}

proof fn lemma_byte_prefix(t1: u8, t2: u8, r1: Seq<u8>, r2: Seq<u8>)
    requires
        seq![t1] + r1 == seq![t2] + r2,
    ensures
        t1 == t2,
        r1 == r2,
{
    let a = seq![t1] + r1;
    let b = seq![t2] + r2;
    assert(a[0] == t1 && b[0] == t2);
    assert(r1 =~= a.subrange(1, a.len() as int));
    assert(r2 =~= b.subrange(1, b.len() as int));
}

/// Whether a value's strings fit the length word.
pub open spec fn value_encodable(v: Value) -> bool {
    match v {
        Value::Text(s) => s@.len() <= u64::MAX,
        _ => true,
    }
}


/// The tag byte of a value's encoding.
pub open spec fn value_tag(v: Value) -> u8 {
    match v {
        Value::Number(_) => 0u8,
        Value::Text(_) => 1u8,
        Value::Boolean(_) => 2u8,
        Value::Null => 3u8,
    }
}

proof fn lemma_value_tag(v: Value)
    ensures
        enc_value(v).len() >= 1,
        enc_value(v)[0] == value_tag(v),
{
    match v {
        Value::Number(n) => {
            assert(enc_value(v)[0] == 0u8);
        },
        Value::Text(s) => {
            assert(enc_value(v)[0] == 1u8);
        },
        Value::Boolean(b) => {
            assert(enc_value(v)[0] == 2u8);
        },
        Value::Null => {
            assert(enc_value(v)[0] == 3u8);
        },
    }
}

proof fn lemma_value_prefix(v1: Value, v2: Value, r1: Seq<u8>, r2: Seq<u8>)
    requires
        value_encodable(v1),
        value_encodable(v2),
        enc_value(v1) + r1 == enc_value(v2) + r2,
    ensures
        value_eq(v1, v2),
        r1 == r2,
{
    match v1 {
        Value::Number(n1) => {
            match v2 {
                Value::Number(n2) => {
                    assert(seq![0u8] + (enc_u64(n1 as u64) + r1) =~= enc_value(v1) + r1);
                    assert(seq![0u8] + (enc_u64(n2 as u64) + r2) =~= enc_value(v2) + r2);
                    lemma_byte_prefix(0u8, 0u8, enc_u64(n1 as u64) + r1, enc_u64(n2 as u64) + r2);
                    lemma_u64_prefix(n1 as u64, n2 as u64, r1, r2);
                    let a = n1 as u64;
                    let b = n2 as u64;
                    assert(n1 == n2) by (bit_vector)
                        requires
                            n1 as u64 == n2 as u64,
                    ;
                },
                _ => {
                    lemma_value_tag(v1);
                    lemma_value_tag(v2);
                    assert((enc_value(v1) + r1)[0] == enc_value(v1)[0]);
                    assert((enc_value(v2) + r2)[0] == enc_value(v2)[0]);
                    assert((enc_value(v1) + r1)[0] == (enc_value(v2) + r2)[0]);
                    assert(false);
                },
            }
        },
        Value::Text(s1) => {
            match v2 {
                Value::Text(s2) => {
                    assert(seq![1u8] + (enc_str(s1@) + r1) =~= enc_value(v1) + r1);
                    assert(seq![1u8] + (enc_str(s2@) + r2) =~= enc_value(v2) + r2);
                    lemma_byte_prefix(1u8, 1u8, enc_str(s1@) + r1, enc_str(s2@) + r2);
                    lemma_str_prefix(s1@, s2@, r1, r2);
                },
                _ => {
                    lemma_value_tag(v1);
                    lemma_value_tag(v2);
                    assert((enc_value(v1) + r1)[0] == enc_value(v1)[0]);
                    assert((enc_value(v2) + r2)[0] == enc_value(v2)[0]);
                    assert((enc_value(v1) + r1)[0] == (enc_value(v2) + r2)[0]);
                    assert(false);
                },
            }
        },
        Value::Boolean(b1) => {
            match v2 {
                Value::Boolean(b2) => {
                    let a = enc_value(v1) + r1;
                    let b = enc_value(v2) + r2;
                    assert(a[1] == b[1]);
                    assert(b1 == b2);
                    assert(r1 =~= a.subrange(2, a.len() as int));
                    assert(r2 =~= b.subrange(2, b.len() as int));
                },
                _ => {
                    lemma_value_tag(v1);
                    lemma_value_tag(v2);
                    assert((enc_value(v1) + r1)[0] == enc_value(v1)[0]);
                    assert((enc_value(v2) + r2)[0] == enc_value(v2)[0]);
                    assert((enc_value(v1) + r1)[0] == (enc_value(v2) + r2)[0]);
                    assert(false);
                },
            }
        },
        Value::Null => {
            match v2 {
                Value::Null => {
                    let a = enc_value(v1) + r1;
                    let b = enc_value(v2) + r2;
                    assert(r1 =~= a.subrange(1, a.len() as int));
                    assert(r2 =~= b.subrange(1, b.len() as int));
                },
                _ => {
                    lemma_value_tag(v1);
                    lemma_value_tag(v2);
                    assert((enc_value(v1) + r1)[0] == enc_value(v1)[0]);
                    assert((enc_value(v2) + r2)[0] == enc_value(v2)[0]);
                    assert((enc_value(v1) + r1)[0] == (enc_value(v2) + r2)[0]);
                    assert(false);
                },
            }
        },
    }
}

/// Whether an instruction's strings fit the length word.
pub open spec fn instruction_encodable(i: Instruction) -> bool {
    match i {
        Instruction::RunLine(id, _) => id@.len() <= u64::MAX,
        Instruction::RunCommand(text, _) => text@.len() <= u64::MAX,
        Instruction::AddOption(id, _, _, _) => id@.len() <= u64::MAX,
        Instruction::PushString(s) => s@.len() <= u64::MAX,
        Instruction::CallFunc(n) => n@.len() <= u64::MAX,
        Instruction::PushVariable(n) => n@.len() <= u64::MAX,
        Instruction::StoreVariable(n) => n@.len() <= u64::MAX,
        _ => true,
    }
}

/// The tag byte of an instruction's encoding.
pub open spec fn instr_tag(i: Instruction) -> u8 {
    match i {
        Instruction::JumpTo(_) => 0u8,
        Instruction::JumpIfFalse(_) => 1u8,
        Instruction::Jump => 2u8,
        Instruction::RunLine(_, _) => 3u8,
        Instruction::RunCommand(_, _) => 4u8,
        Instruction::AddOption(_, _, _, _) => 5u8,
        Instruction::ShowOptions => 6u8,
        Instruction::PushString(_) => 7u8,
        Instruction::PushNumber(_) => 8u8,
        Instruction::PushBool(_) => 9u8,
        Instruction::PushNull => 10u8,
        Instruction::Pop => 11u8,
        Instruction::CallFunc(_) => 12u8,
        Instruction::PushVariable(_) => 13u8,
        Instruction::StoreVariable(_) => 14u8,
        Instruction::Stop => 15u8,
        Instruction::RunNode => 16u8,
        Instruction::AddSaltyDeterministicShuffleToQueue => 17u8,
    }
}

proof fn lemma_instr_tag(i: Instruction)
    ensures
        enc_instruction(i).len() >= 1,
        enc_instruction(i)[0] == instr_tag(i),
{
    match i {
        Instruction::JumpTo(t) => {
            assert(enc_instruction(i)[0] == 0u8);
        },
        Instruction::JumpIfFalse(t) => {
            assert(enc_instruction(i)[0] == 1u8);
        },
        Instruction::Jump => {
            assert(enc_instruction(i)[0] == 2u8);
        },
        Instruction::RunLine(id, k) => {
            assert(enc_instruction(i)[0] == 3u8);
        },
        Instruction::RunCommand(text, k) => {
            assert(enc_instruction(i)[0] == 4u8);
        },
        Instruction::AddOption(id, d, k, c) => {
            assert(enc_instruction(i)[0] == 5u8);
        },
        Instruction::ShowOptions => {
            assert(enc_instruction(i)[0] == 6u8);
        },
        Instruction::PushString(sv) => {
            assert(enc_instruction(i)[0] == 7u8);
        },
        Instruction::PushNumber(n) => {
            assert(enc_instruction(i)[0] == 8u8);
        },
        Instruction::PushBool(b) => {
            assert(enc_instruction(i)[0] == 9u8);
        },
        Instruction::PushNull => {
            assert(enc_instruction(i)[0] == 10u8);
        },
        Instruction::Pop => {
            assert(enc_instruction(i)[0] == 11u8);
        },
        Instruction::CallFunc(nm) => {
            assert(enc_instruction(i)[0] == 12u8);
        },
        Instruction::PushVariable(nm) => {
            assert(enc_instruction(i)[0] == 13u8);
        },
        Instruction::StoreVariable(nm) => {
            assert(enc_instruction(i)[0] == 14u8);
        },
        Instruction::Stop => {
            assert(enc_instruction(i)[0] == 15u8);
        },
        Instruction::RunNode => {
            assert(enc_instruction(i)[0] == 16u8);
        },
        Instruction::AddSaltyDeterministicShuffleToQueue => {
            assert(enc_instruction(i)[0] == 17u8);
        },
    }
}


proof fn lemma_ip_u64(tag: u8, t1: usize, t2: usize, r1: Seq<u8>, r2: Seq<u8>)
    requires
        seq![tag] + (enc_u64(t1 as u64) + r1) == seq![tag] + (enc_u64(t2 as u64) + r2),
    ensures
        t1 == t2,
        r1 == r2,
{
    lemma_byte_prefix(tag, tag, enc_u64(t1 as u64) + r1, enc_u64(t2 as u64) + r2);
    lemma_u64_prefix(t1 as u64, t2 as u64, r1, r2);
}

proof fn lemma_ip_str(tag: u8, s1: Seq<char>, s2: Seq<char>, r1: Seq<u8>, r2: Seq<u8>)
    requires
        s1.len() <= u64::MAX,
        s2.len() <= u64::MAX,
        seq![tag] + (enc_str(s1) + r1) == seq![tag] + (enc_str(s2) + r2),
    ensures
        s1 == s2,
        r1 == r2,
{
    lemma_byte_prefix(tag, tag, enc_str(s1) + r1, enc_str(s2) + r2);
    lemma_str_prefix(s1, s2, r1, r2);
}

proof fn lemma_ip_str_u64(
    tag: u8,
    s1: Seq<char>,
    k1: usize,
    s2: Seq<char>,
    k2: usize,
    r1: Seq<u8>,
    r2: Seq<u8>,
)
    requires
        s1.len() <= u64::MAX,
        s2.len() <= u64::MAX,
        seq![tag] + (enc_str(s1) + (enc_u64(k1 as u64) + r1)) == seq![tag] + (enc_str(s2) + (
        enc_u64(k2 as u64) + r2)),
    ensures
        s1 == s2,
        k1 == k2,
        r1 == r2,
{
    lemma_byte_prefix(tag, tag, enc_str(s1) + (enc_u64(k1 as u64) + r1), enc_str(s2) + (enc_u64(
        k2 as u64,
    ) + r2));
    lemma_str_prefix(s1, s2, enc_u64(k1 as u64) + r1, enc_u64(k2 as u64) + r2);
    lemma_u64_prefix(k1 as u64, k2 as u64, r1, r2);
}

#[verifier::spinoff_prover]
proof fn lemma_ip_add_option(
    s1: Seq<char>,
    d1: usize,
    k1: usize,
    c1: bool,
    s2: Seq<char>,
    d2: usize,
    k2: usize,
    c2: bool,
    r1: Seq<u8>,
    r2: Seq<u8>,
)
    requires
        s1.len() <= u64::MAX,
        s2.len() <= u64::MAX,
        seq![5u8] + (enc_str(s1) + (enc_u64(d1 as u64) + (enc_u64(k1 as u64) + (seq![
            if c1 {
                1u8
            } else {
                0u8
            },
        ] + r1)))) == seq![5u8] + (enc_str(s2) + (enc_u64(d2 as u64) + (enc_u64(k2 as u64) + (
        seq![
            if c2 {
                1u8
            } else {
                0u8
            },
        ] + r2)))),
    ensures
        s1 == s2,
        d1 == d2,
        k1 == k2,
        c1 == c2,
        r1 == r2,
{
    let tail1 = enc_u64(d1 as u64) + (enc_u64(k1 as u64) + (seq![
        if c1 {
            1u8
        } else {
            0u8
        },
    ] + r1));
    let tail2 = enc_u64(d2 as u64) + (enc_u64(k2 as u64) + (seq![
        if c2 {
            1u8
        } else {
            0u8
        },
    ] + r2));
    lemma_byte_prefix(5u8, 5u8, enc_str(s1) + tail1, enc_str(s2) + tail2);
    lemma_str_prefix(s1, s2, tail1, tail2);
    lemma_u64_prefix(d1 as u64, d2 as u64, enc_u64(k1 as u64) + (seq![
        if c1 {
            1u8
        } else {
            0u8
        },
    ] + r1), enc_u64(k2 as u64) + (seq![
        if c2 {
            1u8
        } else {
            0u8
        },
    ] + r2));
    lemma_u64_prefix(k1 as u64, k2 as u64, seq![
        if c1 {
            1u8
        } else {
            0u8
        },
    ] + r1, seq![
        if c2 {
            1u8
        } else {
            0u8
        },
    ] + r2);
    lemma_byte_prefix(
        if c1 {
            1u8
        } else {
            0u8
        },
        if c2 {
            1u8
        } else {
            0u8
        },
        r1,
        r2,
    );
}

#[verifier::rlimit(100)]
#[verifier::spinoff_prover]
proof fn lemma_instruction_prefix(i1: Instruction, i2: Instruction, r1: Seq<u8>, r2: Seq<u8>)
    requires
        instruction_encodable(i1),
        instruction_encodable(i2),
        enc_instruction(i1) + r1 == enc_instruction(i2) + r2,
    ensures
        instruction_equiv(i1, i2),
        r1 == r2,
{
    match i1 {
        Instruction::JumpTo(t1) => {
            match i2 {
                Instruction::JumpTo(t2) => {
                    assert(seq![0u8] + (enc_u64(t1 as u64) + r1) =~= enc_instruction(i1) + r1);
                    assert(seq![0u8] + (enc_u64(t2 as u64) + r2) =~= enc_instruction(i2) + r2);
                    lemma_ip_u64(0u8, t1, t2, r1, r2);
                },
                _ => {
                    lemma_instr_tag(i1);
                    lemma_instr_tag(i2);
                    assert((enc_instruction(i1) + r1)[0] == enc_instruction(i1)[0]);
                    assert((enc_instruction(i2) + r2)[0] == enc_instruction(i2)[0]);
                    assert((enc_instruction(i1) + r1)[0] == (enc_instruction(i2) + r2)[0]);
                    assert(false);
                },
            }
        },
        Instruction::JumpIfFalse(t1) => {
            match i2 {
                Instruction::JumpIfFalse(t2) => {
                    assert(seq![1u8] + (enc_u64(t1 as u64) + r1) =~= enc_instruction(i1) + r1);
                    assert(seq![1u8] + (enc_u64(t2 as u64) + r2) =~= enc_instruction(i2) + r2);
                    lemma_ip_u64(1u8, t1, t2, r1, r2);
                },
                _ => {
                    lemma_instr_tag(i1);
                    lemma_instr_tag(i2);
                    assert((enc_instruction(i1) + r1)[0] == enc_instruction(i1)[0]);
                    assert((enc_instruction(i2) + r2)[0] == enc_instruction(i2)[0]);
                    assert((enc_instruction(i1) + r1)[0] == (enc_instruction(i2) + r2)[0]);
                    assert(false);
                },
            }
        },
        Instruction::Jump => {
            match i2 {
                Instruction::Jump => {
                    assert(seq![2u8] + r1 =~= enc_instruction(i1) + r1);
                    assert(seq![2u8] + r2 =~= enc_instruction(i2) + r2);
                    lemma_byte_prefix(2u8, 2u8, r1, r2);
                },
                _ => {
                    lemma_instr_tag(i1);
                    lemma_instr_tag(i2);
                    assert((enc_instruction(i1) + r1)[0] == enc_instruction(i1)[0]);
                    assert((enc_instruction(i2) + r2)[0] == enc_instruction(i2)[0]);
                    assert((enc_instruction(i1) + r1)[0] == (enc_instruction(i2) + r2)[0]);
                    assert(false);
                },
            }
        },
        Instruction::RunLine(s1, k1) => {
            match i2 {
                Instruction::RunLine(s2, k2) => {
                    assert(seq![3u8] + (enc_str(s1@) + (enc_u64(k1 as u64) + r1)) =~= enc_instruction(i1) + r1);
                    assert(seq![3u8] + (enc_str(s2@) + (enc_u64(k2 as u64) + r2)) =~= enc_instruction(i2) + r2);
                    lemma_ip_str_u64(3u8, s1@, k1, s2@, k2, r1, r2);
                },
                _ => {
                    lemma_instr_tag(i1);
                    lemma_instr_tag(i2);
                    assert((enc_instruction(i1) + r1)[0] == enc_instruction(i1)[0]);
                    assert((enc_instruction(i2) + r2)[0] == enc_instruction(i2)[0]);
                    assert((enc_instruction(i1) + r1)[0] == (enc_instruction(i2) + r2)[0]);
                    assert(false);
                },
            }
        },
        Instruction::RunCommand(s1, k1) => {
            match i2 {
                Instruction::RunCommand(s2, k2) => {
                    assert(seq![4u8] + (enc_str(s1@) + (enc_u64(k1 as u64) + r1)) =~= enc_instruction(i1) + r1);
                    assert(seq![4u8] + (enc_str(s2@) + (enc_u64(k2 as u64) + r2)) =~= enc_instruction(i2) + r2);
                    lemma_ip_str_u64(4u8, s1@, k1, s2@, k2, r1, r2);
                },
                _ => {
                    lemma_instr_tag(i1);
                    lemma_instr_tag(i2);
                    assert((enc_instruction(i1) + r1)[0] == enc_instruction(i1)[0]);
                    assert((enc_instruction(i2) + r2)[0] == enc_instruction(i2)[0]);
                    assert((enc_instruction(i1) + r1)[0] == (enc_instruction(i2) + r2)[0]);
                    assert(false);
                },
            }
        },
        Instruction::AddOption(s1, d1, k1, c1) => {
            match i2 {
                Instruction::AddOption(s2, d2, k2, c2) => {
                    assert(seq![5u8] + (enc_str(s1@) + (enc_u64(d1 as u64) + (enc_u64(k1 as u64) + (seq![if c1 { 1u8 } else { 0u8 }] + r1)))) =~= enc_instruction(i1) + r1);
                    assert(seq![5u8] + (enc_str(s2@) + (enc_u64(d2 as u64) + (enc_u64(k2 as u64) + (seq![if c2 { 1u8 } else { 0u8 }] + r2)))) =~= enc_instruction(i2) + r2);
                    lemma_ip_add_option(s1@, d1, k1, c1, s2@, d2, k2, c2, r1, r2);
                },
                _ => {
                    lemma_instr_tag(i1);
                    lemma_instr_tag(i2);
                    assert((enc_instruction(i1) + r1)[0] == enc_instruction(i1)[0]);
                    assert((enc_instruction(i2) + r2)[0] == enc_instruction(i2)[0]);
                    assert((enc_instruction(i1) + r1)[0] == (enc_instruction(i2) + r2)[0]);
                    assert(false);
                },
            }
        },
        Instruction::ShowOptions => {
            match i2 {
                Instruction::ShowOptions => {
                    assert(seq![6u8] + r1 =~= enc_instruction(i1) + r1);
                    assert(seq![6u8] + r2 =~= enc_instruction(i2) + r2);
                    lemma_byte_prefix(6u8, 6u8, r1, r2);
                },
                _ => {
                    lemma_instr_tag(i1);
                    lemma_instr_tag(i2);
                    assert((enc_instruction(i1) + r1)[0] == enc_instruction(i1)[0]);
                    assert((enc_instruction(i2) + r2)[0] == enc_instruction(i2)[0]);
                    assert((enc_instruction(i1) + r1)[0] == (enc_instruction(i2) + r2)[0]);
                    assert(false);
                },
            }
        },
        Instruction::PushString(s1) => {
            match i2 {
                Instruction::PushString(s2) => {
                    assert(seq![7u8] + (enc_str(s1@) + r1) =~= enc_instruction(i1) + r1);
                    assert(seq![7u8] + (enc_str(s2@) + r2) =~= enc_instruction(i2) + r2);
                    lemma_ip_str(7u8, s1@, s2@, r1, r2);
                },
                _ => {
                    lemma_instr_tag(i1);
                    lemma_instr_tag(i2);
                    assert((enc_instruction(i1) + r1)[0] == enc_instruction(i1)[0]);
                    assert((enc_instruction(i2) + r2)[0] == enc_instruction(i2)[0]);
                    assert((enc_instruction(i1) + r1)[0] == (enc_instruction(i2) + r2)[0]);
                    assert(false);
                },
            }
        },
        Instruction::PushNumber(n1) => {
            match i2 {
                Instruction::PushNumber(n2) => {
                    assert(seq![8u8] + (enc_u64(n1 as u64) + r1) =~= enc_instruction(i1) + r1);
                    assert(seq![8u8] + (enc_u64(n2 as u64) + r2) =~= enc_instruction(i2) + r2);
                    lemma_byte_prefix(8u8, 8u8, enc_u64(n1 as u64) + r1, enc_u64(n2 as u64) + r2);
                    lemma_u64_prefix(n1 as u64, n2 as u64, r1, r2);
                    assert(n1 == n2) by (bit_vector)
                        requires
                            n1 as u64 == n2 as u64,
                    ;
                },
                _ => {
                    lemma_instr_tag(i1);
                    lemma_instr_tag(i2);
                    assert((enc_instruction(i1) + r1)[0] == enc_instruction(i1)[0]);
                    assert((enc_instruction(i2) + r2)[0] == enc_instruction(i2)[0]);
                    assert((enc_instruction(i1) + r1)[0] == (enc_instruction(i2) + r2)[0]);
                    assert(false);
                },
            }
        },
        Instruction::PushBool(b1) => {
            match i2 {
                Instruction::PushBool(b2) => {
                    let a = enc_instruction(i1) + r1;
                    let b = enc_instruction(i2) + r2;
                    assert(a[1] == b[1]);
                    assert(b1 == b2);
                    assert(r1 =~= a.subrange(2, a.len() as int));
                    assert(r2 =~= b.subrange(2, b.len() as int));
                },
                _ => {
                    lemma_instr_tag(i1);
                    lemma_instr_tag(i2);
                    assert((enc_instruction(i1) + r1)[0] == enc_instruction(i1)[0]);
                    assert((enc_instruction(i2) + r2)[0] == enc_instruction(i2)[0]);
                    assert((enc_instruction(i1) + r1)[0] == (enc_instruction(i2) + r2)[0]);
                    assert(false);
                },
            }
        },
        Instruction::PushNull => {
            match i2 {
                Instruction::PushNull => {
                    assert(seq![10u8] + r1 =~= enc_instruction(i1) + r1);
                    assert(seq![10u8] + r2 =~= enc_instruction(i2) + r2);
                    lemma_byte_prefix(10u8, 10u8, r1, r2);
                },
                _ => {
                    lemma_instr_tag(i1);
                    lemma_instr_tag(i2);
                    assert((enc_instruction(i1) + r1)[0] == enc_instruction(i1)[0]);
                    assert((enc_instruction(i2) + r2)[0] == enc_instruction(i2)[0]);
                    assert((enc_instruction(i1) + r1)[0] == (enc_instruction(i2) + r2)[0]);
                    assert(false);
                },
            }
        },
        Instruction::Pop => {
            match i2 {
                Instruction::Pop => {
                    assert(seq![11u8] + r1 =~= enc_instruction(i1) + r1);
                    assert(seq![11u8] + r2 =~= enc_instruction(i2) + r2);
                    lemma_byte_prefix(11u8, 11u8, r1, r2);
                },
                _ => {
                    lemma_instr_tag(i1);
                    lemma_instr_tag(i2);
                    assert((enc_instruction(i1) + r1)[0] == enc_instruction(i1)[0]);
                    assert((enc_instruction(i2) + r2)[0] == enc_instruction(i2)[0]);
                    assert((enc_instruction(i1) + r1)[0] == (enc_instruction(i2) + r2)[0]);
                    assert(false);
                },
            }
        },
        Instruction::CallFunc(s1) => {
            match i2 {
                Instruction::CallFunc(s2) => {
                    assert(seq![12u8] + (enc_str(s1@) + r1) =~= enc_instruction(i1) + r1);
                    assert(seq![12u8] + (enc_str(s2@) + r2) =~= enc_instruction(i2) + r2);
                    lemma_ip_str(12u8, s1@, s2@, r1, r2);
                },
                _ => {
                    lemma_instr_tag(i1);
                    lemma_instr_tag(i2);
                    assert((enc_instruction(i1) + r1)[0] == enc_instruction(i1)[0]);
                    assert((enc_instruction(i2) + r2)[0] == enc_instruction(i2)[0]);
                    assert((enc_instruction(i1) + r1)[0] == (enc_instruction(i2) + r2)[0]);
                    assert(false);
                },
            }
        },
        Instruction::PushVariable(s1) => {
            match i2 {
                Instruction::PushVariable(s2) => {
                    assert(seq![13u8] + (enc_str(s1@) + r1) =~= enc_instruction(i1) + r1);
                    assert(seq![13u8] + (enc_str(s2@) + r2) =~= enc_instruction(i2) + r2);
                    lemma_ip_str(13u8, s1@, s2@, r1, r2);
                },
                _ => {
                    lemma_instr_tag(i1);
                    lemma_instr_tag(i2);
                    assert((enc_instruction(i1) + r1)[0] == enc_instruction(i1)[0]);
                    assert((enc_instruction(i2) + r2)[0] == enc_instruction(i2)[0]);
                    assert((enc_instruction(i1) + r1)[0] == (enc_instruction(i2) + r2)[0]);
                    assert(false);
                },
            }
        },
        Instruction::StoreVariable(s1) => {
            match i2 {
                Instruction::StoreVariable(s2) => {
                    assert(seq![14u8] + (enc_str(s1@) + r1) =~= enc_instruction(i1) + r1);
                    assert(seq![14u8] + (enc_str(s2@) + r2) =~= enc_instruction(i2) + r2);
                    lemma_ip_str(14u8, s1@, s2@, r1, r2);
                },
                _ => {
                    lemma_instr_tag(i1);
                    lemma_instr_tag(i2);
                    assert((enc_instruction(i1) + r1)[0] == enc_instruction(i1)[0]);
                    assert((enc_instruction(i2) + r2)[0] == enc_instruction(i2)[0]);
                    assert((enc_instruction(i1) + r1)[0] == (enc_instruction(i2) + r2)[0]);
                    assert(false);
                },
            }
        },
        Instruction::Stop => {
            match i2 {
                Instruction::Stop => {
                    assert(seq![15u8] + r1 =~= enc_instruction(i1) + r1);
                    assert(seq![15u8] + r2 =~= enc_instruction(i2) + r2);
                    lemma_byte_prefix(15u8, 15u8, r1, r2);
                },
                _ => {
                    lemma_instr_tag(i1);
                    lemma_instr_tag(i2);
                    assert((enc_instruction(i1) + r1)[0] == enc_instruction(i1)[0]);
                    assert((enc_instruction(i2) + r2)[0] == enc_instruction(i2)[0]);
                    assert((enc_instruction(i1) + r1)[0] == (enc_instruction(i2) + r2)[0]);
                    assert(false);
                },
            }
        },
        Instruction::RunNode => {
            match i2 {
                Instruction::RunNode => {
                    assert(seq![16u8] + r1 =~= enc_instruction(i1) + r1);
                    assert(seq![16u8] + r2 =~= enc_instruction(i2) + r2);
                    lemma_byte_prefix(16u8, 16u8, r1, r2);
                },
                _ => {
                    lemma_instr_tag(i1);
                    lemma_instr_tag(i2);
                    assert((enc_instruction(i1) + r1)[0] == enc_instruction(i1)[0]);
                    assert((enc_instruction(i2) + r2)[0] == enc_instruction(i2)[0]);
                    assert((enc_instruction(i1) + r1)[0] == (enc_instruction(i2) + r2)[0]);
                    assert(false);
                },
            }
        },
        Instruction::AddSaltyDeterministicShuffleToQueue => {
            match i2 {
                Instruction::AddSaltyDeterministicShuffleToQueue => {
                    assert(seq![17u8] + r1 =~= enc_instruction(i1) + r1);
                    assert(seq![17u8] + r2 =~= enc_instruction(i2) + r2);
                    lemma_byte_prefix(17u8, 17u8, r1, r2);
                },
                _ => {
                    lemma_instr_tag(i1);
                    lemma_instr_tag(i2);
                    assert((enc_instruction(i1) + r1)[0] == enc_instruction(i1)[0]);
                    assert((enc_instruction(i2) + r2)[0] == enc_instruction(i2)[0]);
                    assert((enc_instruction(i1) + r1)[0] == (enc_instruction(i2) + r2)[0]);
                    assert(false);
                },
            }
        },
    }
}

proof fn lemma_string_elem_prefix(s1: String, s2: String, r1: Seq<u8>, r2: Seq<u8>)
    requires
        s1@.len() <= u64::MAX,
        s2@.len() <= u64::MAX,
        enc_string_elem(s1) + r1 == enc_string_elem(s2) + r2,
    ensures
        s1@ == s2@,
        r1 == r2,
{
    lemma_str_prefix(s1@, s2@, r1, r2);
}

proof fn lemma_label_prefix(l1: (String, usize), l2: (String, usize), r1: Seq<u8>, r2: Seq<u8>)
    requires
        l1.0@.len() <= u64::MAX,
        l2.0@.len() <= u64::MAX,
        enc_label(l1) + r1 == enc_label(l2) + r2,
    ensures
        l1.0@ == l2.0@,
        l1.1 == l2.1,
        r1 == r2,
{
    assert(enc_str(l1.0@) + (enc_u64(l1.1 as u64) + r1) =~= enc_label(l1) + r1);
    assert(enc_str(l2.0@) + (enc_u64(l2.1 as u64) + r2) =~= enc_label(l2) + r2);
    lemma_str_prefix(l1.0@, l2.0@, enc_u64(l1.1 as u64) + r1, enc_u64(l2.1 as u64) + r2);
    lemma_u64_prefix(l1.1 as u64, l2.1 as u64, r1, r2);
}

proof fn lemma_header_prefix(
    h1: (String, String),
    h2: (String, String),
    r1: Seq<u8>,
    r2: Seq<u8>,
)
    requires
        h1.0@.len() <= u64::MAX,
        h1.1@.len() <= u64::MAX,
        h2.0@.len() <= u64::MAX,
        h2.1@.len() <= u64::MAX,
        enc_header(h1) + r1 == enc_header(h2) + r2,
    ensures
        h1.0@ == h2.0@,
        h1.1@ == h2.1@,
        r1 == r2,
{
    assert(enc_str(h1.0@) + (enc_str(h1.1@) + r1) =~= enc_header(h1) + r1);
    assert(enc_str(h2.0@) + (enc_str(h2.1@) + r2) =~= enc_header(h2) + r2);
    lemma_str_prefix(h1.0@, h2.0@, enc_str(h1.1@) + r1, enc_str(h2.1@) + r2);
    lemma_str_prefix(h1.1@, h2.1@, r1, r2);
}

proof fn lemma_initial_prefix(
    b1: (String, Value),
    b2: (String, Value),
    r1: Seq<u8>,
    r2: Seq<u8>,
)
    requires
        b1.0@.len() <= u64::MAX,
        b2.0@.len() <= u64::MAX,
        value_encodable(b1.1),
        value_encodable(b2.1),
        enc_initial(b1) + r1 == enc_initial(b2) + r2,
    ensures
        b1.0@ == b2.0@,
        value_eq(b1.1, b2.1),
        r1 == r2,
{
    assert(enc_str(b1.0@) + (enc_value(b1.1) + r1) =~= enc_initial(b1) + r1);
    assert(enc_str(b2.0@) + (enc_value(b2.1) + r2) =~= enc_initial(b2) + r2);
    lemma_str_prefix(b1.0@, b2.0@, enc_value(b1.1) + r1, enc_value(b2.1) + r2);
    lemma_value_prefix(b1.1, b2.1, r1, r2);
}

/// Whether every element of the sequence fits the encoding's length words.
pub open spec fn instructions_encodable(v: Seq<Instruction>) -> bool {
    forall|i: int|
        0 <= i < v.len() ==> instruction_encodable(#[trigger] v[i]) && enc_instruction(v[i]).len() <= u64::MAX
}

proof fn lemma_instructions_prefix(v1: Seq<Instruction>, v2: Seq<Instruction>, r1: Seq<u8>, r2: Seq<u8>)
    requires
        v1.len() == v2.len(),
        instructions_encodable(v1),
        instructions_encodable(v2),
        enc_instructions(v1) + r1 == enc_instructions(v2) + r2,
    ensures
        forall|i: int| 0 <= i < v1.len() ==> instruction_equiv(#[trigger] v1[i], v2[i]),
        r1 == r2,
    decreases v1.len(),
{
    if v1.len() == 0 {
        assert(enc_instructions(v1) == Seq::<u8>::empty());
        assert(enc_instructions(v2) == Seq::<u8>::empty());
        assert(r1 =~= enc_instructions(v1) + r1);
        assert(r2 =~= enc_instructions(v2) + r2);
    } else {
        assert(v1[0] == v1[0] && v2[0] == v2[0]);
        let t1 = enc_instructions(v1.drop_first()) + r1;
        let t2 = enc_instructions(v2.drop_first()) + r2;
        assert(enc_block(enc_instruction(v1[0])) + t1 =~= enc_instructions(v1) + r1);
        assert(enc_block(enc_instruction(v2[0])) + t2 =~= enc_instructions(v2) + r2);
        lemma_block_prefix(enc_instruction(v1[0]), enc_instruction(v2[0]), t1, t2);
        assert(enc_instruction(v1[0]) + Seq::<u8>::empty() =~= enc_instruction(v1[0]));
        assert(enc_instruction(v2[0]) + Seq::<u8>::empty() =~= enc_instruction(v2[0]));
        lemma_instruction_prefix(v1[0], v2[0], Seq::empty(), Seq::empty());
        assert forall|i: int|
            0 <= i < v1.drop_first().len() implies #[trigger] v1.drop_first()[i]
            == v1[i + 1] && v2.drop_first()[i] == v2[i + 1] by {}
        assert forall|i: int| 0 <= i < v1.drop_first().len() implies instruction_encodable(#[trigger] v1.drop_first()[i]) && enc_instruction(v1.drop_first()[i]).len() <= u64::MAX by {
            assert(v1.drop_first()[i] == v1[i + 1]);
        }
        assert forall|i: int| 0 <= i < v2.drop_first().len() implies instruction_encodable(#[trigger] v2.drop_first()[i]) && enc_instruction(v2.drop_first()[i]).len() <= u64::MAX by {
            assert(v2.drop_first()[i] == v2[i + 1]);
        }
        assert(instructions_encodable(v1.drop_first()));
        assert(instructions_encodable(v2.drop_first()));
        lemma_instructions_prefix(v1.drop_first(), v2.drop_first(), r1, r2);
        assert forall|i: int| 0 <= i < v1.len() implies instruction_equiv(#[trigger] v1[i], v2[i]) by {
            if i > 0 {
                assert(v1.drop_first()[i - 1] == v1[i]);
                assert(v2.drop_first()[i - 1] == v2[i]);
            }
        }
    }
}


/// Whether every element of the sequence fits the encoding's length words.
pub open spec fn labels_encodable(v: Seq<(String, usize)>) -> bool {
    forall|i: int|
        0 <= i < v.len() ==> (#[trigger] v[i]).0@.len() <= u64::MAX && enc_label(v[i]).len() <= u64::MAX
}

proof fn lemma_labels_prefix(v1: Seq<(String, usize)>, v2: Seq<(String, usize)>, r1: Seq<u8>, r2: Seq<u8>)
    requires
        v1.len() == v2.len(),
        labels_encodable(v1),
        labels_encodable(v2),
        enc_labels(v1) + r1 == enc_labels(v2) + r2,
    ensures
        forall|i: int| 0 <= i < v1.len() ==> (#[trigger] v1[i]).0@ == v2[i].0@ && v1[i].1 == v2[i].1,
        r1 == r2,
    decreases v1.len(),
{
    if v1.len() == 0 {
        assert(enc_labels(v1) == Seq::<u8>::empty());
        assert(enc_labels(v2) == Seq::<u8>::empty());
        assert(r1 =~= enc_labels(v1) + r1);
        assert(r2 =~= enc_labels(v2) + r2);
    } else {
        assert(v1[0] == v1[0] && v2[0] == v2[0]);
        let t1 = enc_labels(v1.drop_first()) + r1;
        let t2 = enc_labels(v2.drop_first()) + r2;
        assert(enc_block(enc_label(v1[0])) + t1 =~= enc_labels(v1) + r1);
        assert(enc_block(enc_label(v2[0])) + t2 =~= enc_labels(v2) + r2);
        lemma_block_prefix(enc_label(v1[0]), enc_label(v2[0]), t1, t2);
        assert(enc_label(v1[0]) + Seq::<u8>::empty() =~= enc_label(v1[0]));
        assert(enc_label(v2[0]) + Seq::<u8>::empty() =~= enc_label(v2[0]));
        lemma_label_prefix(v1[0], v2[0], Seq::empty(), Seq::empty());
        assert forall|i: int|
            0 <= i < v1.drop_first().len() implies #[trigger] v1.drop_first()[i]
            == v1[i + 1] && v2.drop_first()[i] == v2[i + 1] by {}
        assert forall|i: int| 0 <= i < v1.drop_first().len() implies (#[trigger] v1.drop_first()[i]).0@.len() <= u64::MAX && enc_label(v1.drop_first()[i]).len() <= u64::MAX by {
            assert(v1.drop_first()[i] == v1[i + 1]);
        }
        assert forall|i: int| 0 <= i < v2.drop_first().len() implies (#[trigger] v2.drop_first()[i]).0@.len() <= u64::MAX && enc_label(v2.drop_first()[i]).len() <= u64::MAX by {
            assert(v2.drop_first()[i] == v2[i + 1]);
        }
        assert(labels_encodable(v1.drop_first()));
        assert(labels_encodable(v2.drop_first()));
        lemma_labels_prefix(v1.drop_first(), v2.drop_first(), r1, r2);
        assert forall|i: int| 0 <= i < v1.len() implies (#[trigger] v1[i]).0@ == v2[i].0@ && v1[i].1 == v2[i].1 by {
            if i > 0 {
                assert(v1.drop_first()[i - 1] == v1[i]);
                assert(v2.drop_first()[i - 1] == v2[i]);
            }
        }
    }
}


/// Whether every element of the sequence fits the encoding's length words.
pub open spec fn strings_encodable(v: Seq<String>) -> bool {
    forall|i: int|
        0 <= i < v.len() ==> (#[trigger] v[i])@.len() <= u64::MAX && enc_string_elem(v[i]).len() <= u64::MAX
}

proof fn lemma_strings_prefix(v1: Seq<String>, v2: Seq<String>, r1: Seq<u8>, r2: Seq<u8>)
    requires
        v1.len() == v2.len(),
        strings_encodable(v1),
        strings_encodable(v2),
        enc_strings(v1) + r1 == enc_strings(v2) + r2,
    ensures
        forall|i: int| 0 <= i < v1.len() ==> (#[trigger] v1[i])@ == v2[i]@,
        r1 == r2,
    decreases v1.len(),
{
    if v1.len() == 0 {
        assert(enc_strings(v1) == Seq::<u8>::empty());
        assert(enc_strings(v2) == Seq::<u8>::empty());
        assert(r1 =~= enc_strings(v1) + r1);
        assert(r2 =~= enc_strings(v2) + r2);
    } else {
        assert(v1[0] == v1[0] && v2[0] == v2[0]);
        let t1 = enc_strings(v1.drop_first()) + r1;
        let t2 = enc_strings(v2.drop_first()) + r2;
        assert(enc_block(enc_string_elem(v1[0])) + t1 =~= enc_strings(v1) + r1);
        assert(enc_block(enc_string_elem(v2[0])) + t2 =~= enc_strings(v2) + r2);
        lemma_block_prefix(enc_string_elem(v1[0]), enc_string_elem(v2[0]), t1, t2);
        assert(enc_string_elem(v1[0]) + Seq::<u8>::empty() =~= enc_string_elem(v1[0]));
        assert(enc_string_elem(v2[0]) + Seq::<u8>::empty() =~= enc_string_elem(v2[0]));
        lemma_string_elem_prefix(v1[0], v2[0], Seq::empty(), Seq::empty());
        assert forall|i: int|
            0 <= i < v1.drop_first().len() implies #[trigger] v1.drop_first()[i]
            == v1[i + 1] && v2.drop_first()[i] == v2[i + 1] by {}
        assert forall|i: int| 0 <= i < v1.drop_first().len() implies (#[trigger] v1.drop_first()[i])@.len() <= u64::MAX && enc_string_elem(v1.drop_first()[i]).len() <= u64::MAX by {
            assert(v1.drop_first()[i] == v1[i + 1]);
        }
        assert forall|i: int| 0 <= i < v2.drop_first().len() implies (#[trigger] v2.drop_first()[i])@.len() <= u64::MAX && enc_string_elem(v2.drop_first()[i]).len() <= u64::MAX by {
            assert(v2.drop_first()[i] == v2[i + 1]);
        }
        assert(strings_encodable(v1.drop_first()));
        assert(strings_encodable(v2.drop_first()));
        lemma_strings_prefix(v1.drop_first(), v2.drop_first(), r1, r2);
        assert forall|i: int| 0 <= i < v1.len() implies (#[trigger] v1[i])@ == v2[i]@ by {
            if i > 0 {
                assert(v1.drop_first()[i - 1] == v1[i]);
                assert(v2.drop_first()[i - 1] == v2[i]);
            }
        }
    }
}


/// Whether every element of the sequence fits the encoding's length words.
pub open spec fn headers_encodable(v: Seq<(String, String)>) -> bool {
    forall|i: int|
        0 <= i < v.len() ==> (#[trigger] v[i]).0@.len() <= u64::MAX && v[i].1@.len() <= u64::MAX && enc_header(v[i]).len() <= u64::MAX
}

proof fn lemma_headers_prefix(v1: Seq<(String, String)>, v2: Seq<(String, String)>, r1: Seq<u8>, r2: Seq<u8>)
    requires
        v1.len() == v2.len(),
        headers_encodable(v1),
        headers_encodable(v2),
        enc_headers(v1) + r1 == enc_headers(v2) + r2,
    ensures
        forall|i: int| 0 <= i < v1.len() ==> (#[trigger] v1[i]).0@ == v2[i].0@ && v1[i].1@ == v2[i].1@,
        r1 == r2,
    decreases v1.len(),
{
    if v1.len() == 0 {
        assert(enc_headers(v1) == Seq::<u8>::empty());
        assert(enc_headers(v2) == Seq::<u8>::empty());
        assert(r1 =~= enc_headers(v1) + r1);
        assert(r2 =~= enc_headers(v2) + r2);
    } else {
        assert(v1[0] == v1[0] && v2[0] == v2[0]);
        let t1 = enc_headers(v1.drop_first()) + r1;
        let t2 = enc_headers(v2.drop_first()) + r2;
        assert(enc_block(enc_header(v1[0])) + t1 =~= enc_headers(v1) + r1);
        assert(enc_block(enc_header(v2[0])) + t2 =~= enc_headers(v2) + r2);
        lemma_block_prefix(enc_header(v1[0]), enc_header(v2[0]), t1, t2);
        assert(enc_header(v1[0]) + Seq::<u8>::empty() =~= enc_header(v1[0]));
        assert(enc_header(v2[0]) + Seq::<u8>::empty() =~= enc_header(v2[0]));
        lemma_header_prefix(v1[0], v2[0], Seq::empty(), Seq::empty());
        assert forall|i: int|
            0 <= i < v1.drop_first().len() implies #[trigger] v1.drop_first()[i]
            == v1[i + 1] && v2.drop_first()[i] == v2[i + 1] by {}
        assert forall|i: int| 0 <= i < v1.drop_first().len() implies (#[trigger] v1.drop_first()[i]).0@.len() <= u64::MAX && v1.drop_first()[i].1@.len() <= u64::MAX && enc_header(v1.drop_first()[i]).len() <= u64::MAX by {
            assert(v1.drop_first()[i] == v1[i + 1]);
        }
        assert forall|i: int| 0 <= i < v2.drop_first().len() implies (#[trigger] v2.drop_first()[i]).0@.len() <= u64::MAX && v2.drop_first()[i].1@.len() <= u64::MAX && enc_header(v2.drop_first()[i]).len() <= u64::MAX by {
            assert(v2.drop_first()[i] == v2[i + 1]);
        }
        assert(headers_encodable(v1.drop_first()));
        assert(headers_encodable(v2.drop_first()));
        lemma_headers_prefix(v1.drop_first(), v2.drop_first(), r1, r2);
        assert forall|i: int| 0 <= i < v1.len() implies (#[trigger] v1[i]).0@ == v2[i].0@ && v1[i].1@ == v2[i].1@ by {
            if i > 0 {
                assert(v1.drop_first()[i - 1] == v1[i]);
                assert(v2.drop_first()[i - 1] == v2[i]);
            }
        }
    }
}


/// Whether every element of the sequence fits the encoding's length words.
pub open spec fn initials_encodable(v: Seq<(String, Value)>) -> bool {
    forall|i: int|
        0 <= i < v.len() ==> (#[trigger] v[i]).0@.len() <= u64::MAX && value_encodable(v[i].1) && enc_initial(v[i]).len() <= u64::MAX
}

proof fn lemma_initials_prefix(v1: Seq<(String, Value)>, v2: Seq<(String, Value)>, r1: Seq<u8>, r2: Seq<u8>)
    requires
        v1.len() == v2.len(),
        initials_encodable(v1),
        initials_encodable(v2),
        enc_initials(v1) + r1 == enc_initials(v2) + r2,
    ensures
        forall|i: int| 0 <= i < v1.len() ==> (#[trigger] v1[i]).0@ == v2[i].0@ && value_eq(v1[i].1, v2[i].1),
        r1 == r2,
    decreases v1.len(),
{
    if v1.len() == 0 {
        assert(enc_initials(v1) == Seq::<u8>::empty());
        assert(enc_initials(v2) == Seq::<u8>::empty());
        assert(r1 =~= enc_initials(v1) + r1);
        assert(r2 =~= enc_initials(v2) + r2);
    } else {
        assert(v1[0] == v1[0] && v2[0] == v2[0]);
        let t1 = enc_initials(v1.drop_first()) + r1;
        let t2 = enc_initials(v2.drop_first()) + r2;
        assert(enc_block(enc_initial(v1[0])) + t1 =~= enc_initials(v1) + r1);
        assert(enc_block(enc_initial(v2[0])) + t2 =~= enc_initials(v2) + r2);
        lemma_block_prefix(enc_initial(v1[0]), enc_initial(v2[0]), t1, t2);
        assert(enc_initial(v1[0]) + Seq::<u8>::empty() =~= enc_initial(v1[0]));
        assert(enc_initial(v2[0]) + Seq::<u8>::empty() =~= enc_initial(v2[0]));
        lemma_initial_prefix(v1[0], v2[0], Seq::empty(), Seq::empty());
        assert forall|i: int|
            0 <= i < v1.drop_first().len() implies #[trigger] v1.drop_first()[i]
            == v1[i + 1] && v2.drop_first()[i] == v2[i + 1] by {}
        assert forall|i: int| 0 <= i < v1.drop_first().len() implies (#[trigger] v1.drop_first()[i]).0@.len() <= u64::MAX && value_encodable(v1.drop_first()[i].1) && enc_initial(v1.drop_first()[i]).len() <= u64::MAX by {
            assert(v1.drop_first()[i] == v1[i + 1]);
        }
        assert forall|i: int| 0 <= i < v2.drop_first().len() implies (#[trigger] v2.drop_first()[i]).0@.len() <= u64::MAX && value_encodable(v2.drop_first()[i].1) && enc_initial(v2.drop_first()[i]).len() <= u64::MAX by {
            assert(v2.drop_first()[i] == v2[i + 1]);
        }
        assert(initials_encodable(v1.drop_first()));
        assert(initials_encodable(v2.drop_first()));
        lemma_initials_prefix(v1.drop_first(), v2.drop_first(), r1, r2);
        assert forall|i: int| 0 <= i < v1.len() implies (#[trigger] v1[i]).0@ == v2[i].0@ && value_eq(v1[i].1, v2[i].1) by {
            if i > 0 {
                assert(v1.drop_first()[i - 1] == v1[i]);
                assert(v2.drop_first()[i - 1] == v2[i]);
            }
        }
    }
}

/// Whether a node fits the encoding's length words throughout.
pub open spec fn node_encodable(n: Node) -> bool {
    &&& n.name@.len() <= u64::MAX
    &&& n.source_file@.len() <= u64::MAX
    &&& n.instructions@.len() <= u64::MAX
    &&& instructions_encodable(n.instructions@)
    &&& n.labels@.len() <= u64::MAX
    &&& labels_encodable(n.labels@)
    &&& n.tags@.len() <= u64::MAX
    &&& strings_encodable(n.tags@)
    &&& n.headers@.len() <= u64::MAX
    &&& headers_encodable(n.headers@)
}

#[verifier::rlimit(100)]
#[verifier::spinoff_prover]
proof fn lemma_node_prefix(n1: Node, n2: Node, r1: Seq<u8>, r2: Seq<u8>)
    requires
        node_encodable(n1),
        node_encodable(n2),
        enc_node(n1) + r1 == enc_node(n2) + r2,
    ensures
        node_equiv(n1, n2),
        r1 == r2,
{
    reveal(enc_node);
    let a9 = enc_headers(n1.headers@);
    let a8 = enc_u64(n1.headers@.len() as u64) + a9;
    let a7 = enc_strings(n1.tags@) + a8;
    let a6 = enc_u64(n1.tags@.len() as u64) + a7;
    let a5 = enc_labels(n1.labels@) + a6;
    let a4 = enc_u64(n1.labels@.len() as u64) + a5;
    let a3 = enc_instructions(n1.instructions@) + a4;
    let a2 = enc_u64(n1.instructions@.len() as u64) + a3;
    let a1 = enc_str(n1.source_file@) + a2;
    let b9 = enc_headers(n2.headers@);
    let b8 = enc_u64(n2.headers@.len() as u64) + b9;
    let b7 = enc_strings(n2.tags@) + b8;
    let b6 = enc_u64(n2.tags@.len() as u64) + b7;
    let b5 = enc_labels(n2.labels@) + b6;
    let b4 = enc_u64(n2.labels@.len() as u64) + b5;
    let b3 = enc_instructions(n2.instructions@) + b4;
    let b2 = enc_u64(n2.instructions@.len() as u64) + b3;
    let b1 = enc_str(n2.source_file@) + b2;
    lemma_assoc(enc_str(n1.name@), a1, r1);
    lemma_assoc(enc_str(n2.name@), b1, r2);
    lemma_str_prefix(n1.name@, n2.name@, a1 + r1, b1 + r2);
    lemma_assoc(enc_str(n1.source_file@), a2, r1);
    lemma_assoc(enc_str(n2.source_file@), b2, r2);
    lemma_str_prefix(n1.source_file@, n2.source_file@, a2 + r1, b2 + r2);
    lemma_assoc(enc_u64(n1.instructions@.len() as u64), a3, r1);
    lemma_assoc(enc_u64(n2.instructions@.len() as u64), b3, r2);
    lemma_u64_prefix(
        n1.instructions@.len() as u64,
        n2.instructions@.len() as u64,
        a3 + r1,
        b3 + r2,
    );
    lemma_assoc(enc_instructions(n1.instructions@), a4, r1);
    lemma_assoc(enc_instructions(n2.instructions@), b4, r2);
    lemma_instructions_prefix(n1.instructions@, n2.instructions@, a4 + r1, b4 + r2);
    lemma_assoc(enc_u64(n1.labels@.len() as u64), a5, r1);
    lemma_assoc(enc_u64(n2.labels@.len() as u64), b5, r2);
    lemma_u64_prefix(n1.labels@.len() as u64, n2.labels@.len() as u64, a5 + r1, b5 + r2);
    lemma_assoc(enc_labels(n1.labels@), a6, r1);
    lemma_assoc(enc_labels(n2.labels@), b6, r2);
    lemma_labels_prefix(n1.labels@, n2.labels@, a6 + r1, b6 + r2);
    lemma_assoc(enc_u64(n1.tags@.len() as u64), a7, r1);
    lemma_assoc(enc_u64(n2.tags@.len() as u64), b7, r2);
    lemma_u64_prefix(n1.tags@.len() as u64, n2.tags@.len() as u64, a7 + r1, b7 + r2);
    lemma_assoc(enc_strings(n1.tags@), a8, r1);
    lemma_assoc(enc_strings(n2.tags@), b8, r2);
    lemma_strings_prefix(n1.tags@, n2.tags@, a8 + r1, b8 + r2);
    lemma_assoc(enc_u64(n1.headers@.len() as u64), a9, r1);
    lemma_assoc(enc_u64(n2.headers@.len() as u64), b9, r2);
    lemma_u64_prefix(n1.headers@.len() as u64, n2.headers@.len() as u64, a9 + r1, b9 + r2);
    lemma_headers_prefix(n1.headers@, n2.headers@, r1, r2);
}

/// Whether every node of the sequence fits the encoding's length words.
pub open spec fn nodes_encodable(v: Seq<Node>) -> bool {
    forall|i: int|
        0 <= i < v.len() ==> node_encodable(#[trigger] v[i]) && enc_node(v[i]).len() <= u64::MAX
}

#[verifier::rlimit(100)]
#[verifier::spinoff_prover]
proof fn lemma_nodes_prefix(v1: Seq<Node>, v2: Seq<Node>, r1: Seq<u8>, r2: Seq<u8>)
    requires
        v1.len() == v2.len(),
        nodes_encodable(v1),
        nodes_encodable(v2),
        enc_nodes(v1) + r1 == enc_nodes(v2) + r2,
    ensures
        forall|i: int| 0 <= i < v1.len() ==> node_equiv(#[trigger] v1[i], v2[i]),
        r1 == r2,
    decreases v1.len(),
{
    if v1.len() == 0 {
        assert(enc_nodes(v1) == Seq::<u8>::empty());
        assert(enc_nodes(v2) == Seq::<u8>::empty());
        assert(r1 =~= enc_nodes(v1) + r1);
        assert(r2 =~= enc_nodes(v2) + r2);
    } else {
        let h1 = enc_block(enc_node(v1[0]));
        let h2 = enc_block(enc_node(v2[0]));
        let t1 = enc_nodes(v1.drop_first());
        let t2 = enc_nodes(v2.drop_first());
        assert(enc_nodes(v1) == h1 + t1);
        assert(enc_nodes(v2) == h2 + t2);
        lemma_assoc(h1, t1, r1);
        lemma_assoc(h2, t2, r2);
        lemma_block_prefix(enc_node(v1[0]), enc_node(v2[0]), t1 + r1, t2 + r2);
        assert(enc_node(v1[0]) + Seq::<u8>::empty() =~= enc_node(v1[0]));
        assert(enc_node(v2[0]) + Seq::<u8>::empty() =~= enc_node(v2[0]));
        lemma_node_prefix(v1[0], v2[0], Seq::empty(), Seq::empty());
        assert forall|i: int|
            0 <= i < v1.drop_first().len() implies node_encodable(
            #[trigger] v1.drop_first()[i],
        ) && enc_node(v1.drop_first()[i]).len() <= u64::MAX by {
            assert(v1.drop_first()[i] == v1[i + 1]);
        }
        assert forall|i: int|
            0 <= i < v2.drop_first().len() implies node_encodable(
            #[trigger] v2.drop_first()[i],
        ) && enc_node(v2.drop_first()[i]).len() <= u64::MAX by {
            assert(v2.drop_first()[i] == v2[i + 1]);
        }
        lemma_nodes_prefix(v1.drop_first(), v2.drop_first(), r1, r2);
        assert forall|i: int| 0 <= i < v1.len() implies node_equiv(#[trigger] v1[i], v2[i]) by {
            if i > 0 {
                assert(v1.drop_first()[i - 1] == v1[i]);
                assert(v2.drop_first()[i - 1] == v2[i]);
            }
        }
    }
}

/// Whether a program fits the encoding's length words throughout: every
/// string and table shorter than the word's range.
pub open spec fn program_encodable(p: Program) -> bool {
    &&& p.nodes@.len() <= u64::MAX
    &&& nodes_encodable(p.nodes@)
    &&& p.initial_values@.len() <= u64::MAX
    &&& initials_encodable(p.initial_values@)
}

/// Law: the binary form is faithful. Two programs within the encoding's
/// range that serialize to the same bytes are the same program at the view
/// level, and so execute alike; in particular, whatever a deserialization
/// of a program's serialization returns is equivalent to that program.
#[verifier::rlimit(100)]
#[verifier::spinoff_prover]
pub proof fn lemma_encoding_faithful(p: Program, q: Program)
    requires
        program_encodable(p),
        program_encodable(q),
        enc_program(p) == enc_program(q),
    ensures
        program_equiv(p, q),
{
    let a3 = enc_initials(p.initial_values@);
    let a2 = enc_u64(p.initial_values@.len() as u64) + a3;
    let a1 = enc_nodes(p.nodes@) + a2;
    let a0 = enc_u64(p.nodes@.len() as u64) + a1;
    let b3 = enc_initials(q.initial_values@);
    let b2 = enc_u64(q.initial_values@.len() as u64) + b3;
    let b1 = enc_nodes(q.nodes@) + b2;
    let b0 = enc_u64(q.nodes@.len() as u64) + b1;
    let e = Seq::<u8>::empty();
    assert(enc_program(p) + e =~= enc_program(p));
    assert(enc_program(q) + e =~= enc_program(q));
    lemma_assoc(seq![FORMAT_VERSION], a0, e);
    lemma_assoc(seq![FORMAT_VERSION], b0, e);
    lemma_byte_prefix(FORMAT_VERSION, FORMAT_VERSION, a0 + e, b0 + e);
    lemma_assoc(enc_u64(p.nodes@.len() as u64), a1, e);
    lemma_assoc(enc_u64(q.nodes@.len() as u64), b1, e);
    lemma_u64_prefix(p.nodes@.len() as u64, q.nodes@.len() as u64, a1 + e, b1 + e);
    lemma_assoc(enc_nodes(p.nodes@), a2, e);
    lemma_assoc(enc_nodes(q.nodes@), b2, e);
    lemma_nodes_prefix(p.nodes@, q.nodes@, a2 + e, b2 + e);
    lemma_assoc(enc_u64(p.initial_values@.len() as u64), a3, e);
    lemma_assoc(enc_u64(q.initial_values@.len() as u64), b3, e);
    lemma_u64_prefix(
        p.initial_values@.len() as u64,
        q.initial_values@.len() as u64,
        a3 + e,
        b3 + e,
    );
    assert(a3 + e =~= a3);
    assert(b3 + e =~= b3);
    lemma_initials_prefix(p.initial_values@, q.initial_values@, e, e);
}


proof fn lemma_enc_chars_len(s: Seq<char>)
    ensures
        enc_chars(s).len() == 4 * s.len(),
    decreases s.len(),
{
    if s.len() > 0 {
        lemma_enc_chars_len(s.drop_first());
    }
}


proof fn lemma_enc_instructions_count(v: Seq<Instruction>)
    ensures
        enc_instructions(v).len() >= v.len(),
    decreases v.len(),
{
    if v.len() > 0 {
        lemma_enc_instructions_count(v.drop_first());
    }
}

proof fn lemma_enc_labels_count(v: Seq<(String, usize)>)
    ensures
        enc_labels(v).len() >= v.len(),
    decreases v.len(),
{
    if v.len() > 0 {
        lemma_enc_labels_count(v.drop_first());
    }
}

proof fn lemma_enc_strings_count(v: Seq<String>)
    ensures
        enc_strings(v).len() >= v.len(),
    decreases v.len(),
{
    if v.len() > 0 {
        lemma_enc_strings_count(v.drop_first());
    }
}

proof fn lemma_enc_headers_count(v: Seq<(String, String)>)
    ensures
        enc_headers(v).len() >= v.len(),
    decreases v.len(),
{
    if v.len() > 0 {
        lemma_enc_headers_count(v.drop_first());
    }
}

proof fn lemma_enc_initials_count(v: Seq<(String, Value)>)
    ensures
        enc_initials(v).len() >= v.len(),
    decreases v.len(),
{
    if v.len() > 0 {
        lemma_enc_initials_count(v.drop_first());
    }
}

proof fn lemma_enc_nodes_count(v: Seq<Node>)
    ensures
        enc_nodes(v).len() >= v.len(),
    decreases v.len(),
{
    if v.len() > 0 {
        lemma_enc_nodes_count(v.drop_first());
    }
}


proof fn lemma_enc_instructions_cat(v: Seq<Instruction>, i: int)
    requires
        0 <= i <= v.len(),
    ensures
        enc_instructions(v) == enc_instructions(v.subrange(0, i)) + enc_instructions(
            v.subrange(i, v.len() as int),
        ),
    decreases i,
{
    if i == 0 {
        assert(v.subrange(0, 0) =~= Seq::<Instruction>::empty());
        assert(v.subrange(0, v.len() as int) =~= v);
        assert(enc_instructions(v) =~= enc_instructions(v.subrange(0, 0)) + enc_instructions(
            v.subrange(0, v.len() as int),
        ));
    } else {
        lemma_enc_instructions_cat(v.drop_first(), i - 1);
        assert(v.drop_first().subrange(0, i - 1) =~= v.subrange(1, i));
        assert(v.drop_first().subrange(i - 1, v.drop_first().len() as int) =~= v.subrange(
            i,
            v.len() as int,
        ));
        let head = v.subrange(0, i);
        assert(head[0] == v[0]);
        assert(head.drop_first() =~= v.subrange(1, i));
        assert(enc_instructions(head) == enc_block(enc_instruction(v[0])) + enc_instructions(v.subrange(1, i)));
        assert(enc_instructions(v) =~= enc_instructions(head) + enc_instructions(v.subrange(i, v.len() as int)));
    }
}

proof fn lemma_enc_labels_cat(v: Seq<(String, usize)>, i: int)
    requires
        0 <= i <= v.len(),
    ensures
        enc_labels(v) == enc_labels(v.subrange(0, i)) + enc_labels(
            v.subrange(i, v.len() as int),
        ),
    decreases i,
{
    if i == 0 {
        assert(v.subrange(0, 0) =~= Seq::<(String, usize)>::empty());
        assert(v.subrange(0, v.len() as int) =~= v);
        assert(enc_labels(v) =~= enc_labels(v.subrange(0, 0)) + enc_labels(
            v.subrange(0, v.len() as int),
        ));
    } else {
        lemma_enc_labels_cat(v.drop_first(), i - 1);
        assert(v.drop_first().subrange(0, i - 1) =~= v.subrange(1, i));
        assert(v.drop_first().subrange(i - 1, v.drop_first().len() as int) =~= v.subrange(
            i,
            v.len() as int,
        ));
        let head = v.subrange(0, i);
        assert(head[0] == v[0]);
        assert(head.drop_first() =~= v.subrange(1, i));
        assert(enc_labels(head) == enc_block(enc_label(v[0])) + enc_labels(v.subrange(1, i)));
        assert(enc_labels(v) =~= enc_labels(head) + enc_labels(v.subrange(i, v.len() as int)));
    }
}

proof fn lemma_enc_strings_cat(v: Seq<String>, i: int)
    requires
        0 <= i <= v.len(),
    ensures
        enc_strings(v) == enc_strings(v.subrange(0, i)) + enc_strings(
            v.subrange(i, v.len() as int),
        ),
    decreases i,
{
    if i == 0 {
        assert(v.subrange(0, 0) =~= Seq::<String>::empty());
        assert(v.subrange(0, v.len() as int) =~= v);
        assert(enc_strings(v) =~= enc_strings(v.subrange(0, 0)) + enc_strings(
            v.subrange(0, v.len() as int),
        ));
    } else {
        lemma_enc_strings_cat(v.drop_first(), i - 1);
        assert(v.drop_first().subrange(0, i - 1) =~= v.subrange(1, i));
        assert(v.drop_first().subrange(i - 1, v.drop_first().len() as int) =~= v.subrange(
            i,
            v.len() as int,
        ));
        let head = v.subrange(0, i);
        assert(head[0] == v[0]);
        assert(head.drop_first() =~= v.subrange(1, i));
        assert(enc_strings(head) == enc_block(enc_string_elem(v[0])) + enc_strings(v.subrange(1, i)));
        assert(enc_strings(v) =~= enc_strings(head) + enc_strings(v.subrange(i, v.len() as int)));
    }
}

proof fn lemma_enc_headers_cat(v: Seq<(String, String)>, i: int)
    requires
        0 <= i <= v.len(),
    ensures
        enc_headers(v) == enc_headers(v.subrange(0, i)) + enc_headers(
            v.subrange(i, v.len() as int),
        ),
    decreases i,
{
    if i == 0 {
        assert(v.subrange(0, 0) =~= Seq::<(String, String)>::empty());
        assert(v.subrange(0, v.len() as int) =~= v);
        assert(enc_headers(v) =~= enc_headers(v.subrange(0, 0)) + enc_headers(
            v.subrange(0, v.len() as int),
        ));
    } else {
        lemma_enc_headers_cat(v.drop_first(), i - 1);
        assert(v.drop_first().subrange(0, i - 1) =~= v.subrange(1, i));
        assert(v.drop_first().subrange(i - 1, v.drop_first().len() as int) =~= v.subrange(
            i,
            v.len() as int,
        ));
        let head = v.subrange(0, i);
        assert(head[0] == v[0]);
        assert(head.drop_first() =~= v.subrange(1, i));
        assert(enc_headers(head) == enc_block(enc_header(v[0])) + enc_headers(v.subrange(1, i)));
        assert(enc_headers(v) =~= enc_headers(head) + enc_headers(v.subrange(i, v.len() as int)));
    }
}

proof fn lemma_enc_initials_cat(v: Seq<(String, Value)>, i: int)
    requires
        0 <= i <= v.len(),
    ensures
        enc_initials(v) == enc_initials(v.subrange(0, i)) + enc_initials(
            v.subrange(i, v.len() as int),
        ),
    decreases i,
{
    if i == 0 {
        assert(v.subrange(0, 0) =~= Seq::<(String, Value)>::empty());
        assert(v.subrange(0, v.len() as int) =~= v);
        assert(enc_initials(v) =~= enc_initials(v.subrange(0, 0)) + enc_initials(
            v.subrange(0, v.len() as int),
        ));
    } else {
        lemma_enc_initials_cat(v.drop_first(), i - 1);
        assert(v.drop_first().subrange(0, i - 1) =~= v.subrange(1, i));
        assert(v.drop_first().subrange(i - 1, v.drop_first().len() as int) =~= v.subrange(
            i,
            v.len() as int,
        ));
        let head = v.subrange(0, i);
        assert(head[0] == v[0]);
        assert(head.drop_first() =~= v.subrange(1, i));
        assert(enc_initials(head) == enc_block(enc_initial(v[0])) + enc_initials(v.subrange(1, i)));
        assert(enc_initials(v) =~= enc_initials(head) + enc_initials(v.subrange(i, v.len() as int)));
    }
}

proof fn lemma_enc_nodes_cat(v: Seq<Node>, i: int)
    requires
        0 <= i <= v.len(),
    ensures
        enc_nodes(v) == enc_nodes(v.subrange(0, i)) + enc_nodes(
            v.subrange(i, v.len() as int),
        ),
    decreases i,
{
    if i == 0 {
        assert(v.subrange(0, 0) =~= Seq::<Node>::empty());
        assert(v.subrange(0, v.len() as int) =~= v);
        assert(enc_nodes(v) =~= enc_nodes(v.subrange(0, 0)) + enc_nodes(
            v.subrange(0, v.len() as int),
        ));
    } else {
        lemma_enc_nodes_cat(v.drop_first(), i - 1);
        assert(v.drop_first().subrange(0, i - 1) =~= v.subrange(1, i));
        assert(v.drop_first().subrange(i - 1, v.drop_first().len() as int) =~= v.subrange(
            i,
            v.len() as int,
        ));
        let head = v.subrange(0, i);
        assert(head[0] == v[0]);
        assert(head.drop_first() =~= v.subrange(1, i));
        assert(enc_nodes(head) == enc_block(enc_node(v[0])) + enc_nodes(v.subrange(1, i)));
        assert(enc_nodes(v) =~= enc_nodes(head) + enc_nodes(v.subrange(i, v.len() as int)));
    }
}

/// Splits a subrange known to hold a concatenation into its two parts.
proof fn lemma_split_at(bytes: Seq<u8>, pos: int, a: Seq<u8>, b: Seq<u8>)
    requires
        0 <= pos,
        pos + a.len() + b.len() <= bytes.len(),
        bytes.subrange(pos, pos + a.len() + b.len()) == a + b,
    ensures
        bytes.subrange(pos, pos + a.len()) == a,
        bytes.subrange(pos + a.len(), pos + a.len() + b.len()) == b,
{
    let whole = bytes.subrange(pos, pos + a.len() + b.len());
    assert forall|k: int| 0 <= k < a.len() implies bytes.subrange(pos, pos + a.len())[k]
        == a[k] by {
        assert(whole[k] == (a + b)[k]);
    }
    assert(bytes.subrange(pos, pos + a.len()) =~= a);
    assert forall|k: int|
        0 <= k < b.len() implies bytes.subrange(pos + a.len(), pos + a.len() + b.len())[k]
        == b[k] by {
        assert(whole[a.len() + k] == (a + b)[a.len() + k]);
    }
    assert(bytes.subrange(pos + a.len(), pos + a.len() + b.len()) =~= b);
}

proof fn lemma_enc_chars_at(s: Seq<char>, i: int)
    requires
        0 <= i < s.len(),
    ensures
        enc_chars(s).subrange(4 * i, 4 * i + 4) == enc_char4(s[i]),
        enc_chars(s).subrange(4 * i + 4, enc_chars(s).len() as int) == enc_chars(
            s.subrange(i + 1, s.len() as int),
        ),
    decreases i,
{
    lemma_enc_chars_len(s);
    if i == 0 {
        lemma_enc_chars_len(s.drop_first());
        assert(enc_chars(s) == enc_char4(s[0]) + enc_chars(s.drop_first()));
        assert(enc_chars(s).subrange(0, 4) =~= enc_char4(s[0]));
        assert(s.drop_first() =~= s.subrange(1, s.len() as int));
        assert(enc_chars(s).subrange(4, enc_chars(s).len() as int) =~= enc_chars(
            s.subrange(1, s.len() as int),
        ));
    } else {
        lemma_enc_chars_at(s.drop_first(), i - 1);
        lemma_enc_chars_len(s.drop_first());
        assert(enc_chars(s) == enc_char4(s[0]) + enc_chars(s.drop_first()));
        assert(s.drop_first()[i - 1] == s[i]);
        assert(enc_chars(s).subrange(4 * i, 4 * i + 4) =~= enc_chars(s.drop_first()).subrange(
            4 * (i - 1),
            4 * (i - 1) + 4,
        ));
        assert(s.drop_first().subrange(i, s.drop_first().len() as int) =~= s.subrange(
            i + 1,
            s.len() as int,
        ));
        assert(enc_chars(s).subrange(4 * i + 4, enc_chars(s).len() as int) =~= enc_chars(
            s.drop_first(),
        ).subrange(4 * (i - 1) + 4, enc_chars(s.drop_first()).len() as int));
    }
}

// ---------------------------------------------------------------------
// The deserializer. Parsing is straightforward; what makes the result
// trustworthy is the final check: the parsed program is re-serialized and
// accepted only when the bytes match exactly. By the serializer's
// contract, an accepted program therefore encodes to the given bytes, and
// the faithfulness law carries that to equivalence.

fn read_u64(bytes: &Vec<u8>, pos: usize) -> (r: Option<(u64, usize)>)
    requires
        pos <= bytes@.len(),
    ensures
        r is Some <==> pos + 8 <= bytes@.len(),
        r matches Some(pair) ==> pos < pair.1 <= bytes@.len() && pair.1 == pos + 8
            && bytes@.subrange(pos as int, pos + 8) == enc_u64(pair.0),
{
    if bytes.len() - pos < 8 {
        return None;
    }
    let x: u64 = (bytes[pos] as u64) | ((bytes[pos + 1] as u64) << 8) | ((bytes[pos + 2] as u64)
        << 16) | ((bytes[pos + 3] as u64) << 24) | ((bytes[pos + 4] as u64) << 32) | ((bytes[pos
        + 5] as u64) << 40) | ((bytes[pos + 6] as u64) << 48) | ((bytes[pos + 7] as u64) << 56);
    proof {
        let b0 = bytes@[pos as int];
        let b1 = bytes@[pos + 1];
        let b2 = bytes@[pos + 2];
        let b3 = bytes@[pos + 3];
        let b4 = bytes@[pos + 4];
        let b5 = bytes@[pos + 5];
        let b6 = bytes@[pos + 6];
        let b7 = bytes@[pos + 7];
        assert((x & 0xff) as u8 == b0 && ((x >> 8) & 0xff) as u8 == b1 && ((x >> 16) & 0xff) as u8
            == b2 && ((x >> 24) & 0xff) as u8 == b3 && ((x >> 32) & 0xff) as u8 == b4 && ((x
            >> 40) & 0xff) as u8 == b5 && ((x >> 48) & 0xff) as u8 == b6 && ((x >> 56)
            & 0xff) as u8 == b7) by (bit_vector)
            requires
                x == (b0 as u64) | ((b1 as u64) << 8) | ((b2 as u64) << 16) | ((b3 as u64) << 24)
                    | ((b4 as u64) << 32) | ((b5 as u64) << 40) | ((b6 as u64) << 48) | ((
                b7 as u64) << 56),
        ;
        assert(bytes@.subrange(pos as int, pos + 8) =~= enc_u64(x));
    }
    Some((x, pos + 8))
}

#[verifier::loop_isolation(false)]
fn read_str(bytes: &Vec<u8>, pos: usize, Ghost(exp): Ghost<Option<Seq<char>>>) -> (r: Option<
    (String, usize),
>)
    requires
        pos <= bytes@.len(),
        exp matches Some(s) ==> s.len() <= u64::MAX && pos + 8 + 4 * s.len() <= bytes@.len()
            && bytes@.subrange(pos as int, pos + 8 + 4 * s.len()) == enc_str(s),
    ensures
        r matches Some(pair) ==> pos < pair.1 <= bytes@.len(),
        exp matches Some(s) ==> (r matches Some(pair) && pair.0@ == s && pair.1 == pos + 8 + 4
            * s.len()),
{
    broadcast use vstd::utf8::char_is_scalar, vstd::utf8::char_u32_cast;

    proof {
        match exp {
            Some(es) => {
            lemma_enc_chars_len(es);
            lemma_split_at(bytes@, pos as int, enc_u64(es.len() as u64), enc_chars(es));
            },
            None => {},
        }
    }
    let (count, mut p) = match read_u64(bytes, pos) {
        Some(pair) => pair,
        None => {
            proof {
                match exp {
                    Some(es) => {
                    assert(pos + 8 <= bytes@.len());
                    },
                    None => {},
                }
            }
            return None;
        },
    };
    proof {
        match exp {
            Some(es) => {
            lemma_u64_inj(count, es.len() as u64);
            assert(count == es.len());
            },
            None => {},
        }
    }
    if count > bytes.len() as u64 {
        proof {
            match exp {
                Some(es) => {
                assert(4 * es.len() <= bytes@.len());
                },
                None => {},
            }
        }
        return None;
    }
    let n = count as usize;
    let mut out = String::new();
    let mut i: usize = 0;
    while i < n
        invariant
            pos < p <= bytes@.len(),
            i <= n,
            exp matches Some(es) ==> (n == es.len() && p == pos + 8 + 4 * i && out@
                == es.subrange(0, i as int)),
        decreases n - i,
    {
        if bytes.len() - p < 4 {
            proof {
                match exp {
                    Some(es) => {
                    assert(p + 4 <= pos + 8 + 4 * es.len());
                    },
                    None => {},
                }
            }
            return None;
        }
        let c: u32 = (bytes[p] as u32) | ((bytes[p + 1] as u32) << 8) | ((bytes[p + 2] as u32)
            << 16) | ((bytes[p + 3] as u32) << 24);
        proof {
            match exp {
                Some(es) => {
                    lemma_enc_chars_at(es, i as int);
                    let window = enc_char4(es[i as int]);
                    assert forall|k: int| 0 <= k < 4 implies bytes@[p + k] == window[k] by {
                        assert(bytes@.subrange(pos + 8, pos + 8 + 4 * es.len())[4 * i + k]
                            == enc_chars(es)[4 * i + k]);
                        assert(enc_chars(es).subrange(4 * i, 4 * i + 4)[k] == enc_chars(es)[4 * i
                            + k]);
                    }
                    let b0 = bytes@[p as int];
                    let b1 = bytes@[p + 1];
                    let b2 = bytes@[p + 2];
                    let b3 = bytes@[p + 3];
                    let u = es[i as int] as u32;
                    assert(c == u) by (bit_vector)
                        requires
                            c == (b0 as u32) | ((b1 as u32) << 8) | ((b2 as u32) << 16) | ((
                            b3 as u32) << 24),
                            b0 == (u & 0xff) as u8,
                            b1 == ((u >> 8) & 0xff) as u8,
                            b2 == ((u >> 16) & 0xff) as u8,
                            b3 == ((u >> 24) & 0xff) as u8,
                    ;
                },
                None => {},
            }
        }
        match crate::text::char_from_u32(c) {
            Some(ch) => {
                proof {
                    match exp {
                        Some(es) => {
                            vstd::utf8::char_u32_cast(es[i as int], es[i as int] as u32);
                            vstd::utf8::char_u32_cast(ch, ch as u32);
                            assert(ch == es[i as int]);
                        },
                        None => {},
                    }
                }
                push_char(&mut out, ch);
            },
            None => {
                proof {
                    match exp {
                        Some(es) => {
                            vstd::utf8::char_is_scalar(es[i as int]);
                            assert(vstd::utf8::is_scalar(es[i as int] as u32));
                            assert(false);
                        },
                        None => {},
                    }
                }
                return None;
            },
        }
        proof {
            match exp {
                Some(es) => {
                assert(out@ =~= es.subrange(0, i + 1));
                },
                None => {},
            }
        }
        p += 4;
        i += 1;
    }
    proof {
        match exp {
            Some(es) => {
            assert(out@ =~= es);
            },
            None => {},
        }
    }
    Some((out, p))
}

#[verifier::loop_isolation(false)]
fn read_value(bytes: &Vec<u8>, pos: usize, Ghost(exp): Ghost<Option<Value>>) -> (r: Option<
    (Value, usize),
>)
    requires
        pos <= bytes@.len(),
        exp matches Some(v) ==> value_encodable(v) && pos + enc_value(v).len() <= bytes@.len()
            && bytes@.subrange(pos as int, pos + enc_value(v).len()) == enc_value(v),
    ensures
        r matches Some(pair) ==> pos < pair.1 <= bytes@.len(),
        exp matches Some(v) ==> (r matches Some(pair) && enc_value(pair.0) == enc_value(v)
            && pair.1 == pos + enc_value(v).len()),
{
    if pos >= bytes.len() {
        proof {
            match exp {
                Some(v) => {
                    lemma_value_tag(v);
                },
                None => {},
            }
        }
        return None;
    }
    let tag = bytes[pos];
    proof {
        match exp {
            Some(v) => {
                lemma_value_tag(v);
                assert(bytes@.subrange(pos as int, pos + enc_value(v).len())[0]
                    == enc_value(v)[0]);
                assert(tag == value_tag(v));
            },
            None => {},
        }
    }
    let p = pos + 1;
    if tag == 0 {
        proof {
            match exp {
                Some(v) => {
                    match v {
                        Value::Number(n) => {
                            assert(enc_value(v) == seq![0u8] + enc_u64(n as u64));
                            lemma_split_at(bytes@, pos as int, seq![0u8], enc_u64(n as u64));
                        },
                        _ => {
                            assert(false);
                        },
                    }
                },
                None => {},
            }
        }
        match read_u64(bytes, p) {
            Some((x, p2)) => {
                proof {
                    match exp {
                        Some(v) => {
                            match v {
                                Value::Number(n) => {
                                    lemma_u64_inj(x, n as u64);
                                    assert(x as i64 == n) by (bit_vector)
                                        requires
                                            x == n as u64,
                                    ;
                                },
                                _ => {},
                            }
                        },
                        None => {},
                    }
                }
                Some((Value::Number(x as i64), p2))
            },
            None => None,
        }
    } else if tag == 1 {
        let ghost expected_chars: Option<Seq<char>> = match exp {
            Some(Value::Text(s)) => Some(s@),
            _ => None,
        };
        proof {
            match exp {
                Some(v) => {
                    match v {
                        Value::Text(s) => {
                            assert(enc_value(v) == seq![1u8] + enc_str(s@));
                            lemma_split_at(bytes@, pos as int, seq![1u8], enc_str(s@));
                            lemma_enc_chars_len(s@);
                        },
                        _ => {
                            assert(false);
                        },
                    }
                },
                None => {},
            }
        }
        match read_str(bytes, p, Ghost(expected_chars)) {
            Some((s, p2)) => Some((Value::Text(s), p2)),
            None => None,
        }
    } else if tag == 2 {
        if p >= bytes.len() {
            proof {
                match exp {
                    Some(v) => {
                        assert(false);
                    },
                    None => {},
                }
            }
            return None;
        }
        proof {
            match exp {
                Some(v) => {
                    match v {
                        Value::Boolean(b) => {
                            assert(bytes@.subrange(pos as int, pos + enc_value(v).len())[1]
                                == enc_value(v)[1]);
                        },
                        _ => {
                            assert(false);
                        },
                    }
                },
                None => {},
            }
        }
        Some((Value::Boolean(bytes[p] == 1), p + 1))
    } else if tag == 3 {
        Some((Value::Null, p))
    } else {
        proof {
            match exp {
                Some(v) => {
                    assert(false);
                },
                None => {},
            }
        }
        None
    }
}

#[verifier::loop_isolation(false)]
#[verifier::rlimit(100)]
#[verifier::spinoff_prover]
fn read_instruction(bytes: &Vec<u8>, pos: usize, Ghost(exp): Ghost<Option<Instruction>>) -> (r:
    Option<(Instruction, usize)>)
    requires
        pos <= bytes@.len(),
        exp matches Some(ei) ==> instruction_encodable(ei) && pos + enc_instruction(ei).len()
            <= bytes@.len() && bytes@.subrange(pos as int, pos + enc_instruction(ei).len())
            == enc_instruction(ei),
    ensures
        r matches Some(pair) ==> pos < pair.1 <= bytes@.len(),
        exp matches Some(ei) ==> (r matches Some(pair) && enc_instruction(pair.0)
            == enc_instruction(ei) && pair.1 == pos + enc_instruction(ei).len()),
{
    if pos >= bytes.len() {
        proof {
            match exp {
                Some(ei) => {
                    lemma_instr_tag(ei);
                    assert(false);
                },
                None => {},
            }
        }
        return None;
    }
    let tag = bytes[pos];
        proof {
            match exp {
                Some(ei) => {
                    lemma_instr_tag(ei);
                    assert(bytes@.subrange(pos as int, pos + enc_instruction(ei).len())[0]
                        == enc_instruction(ei)[0]);
                    assert(tag == instr_tag(ei));
                },
                None => {},
            }
        }
    let p = pos + 1;
    if tag == 0 || tag == 1 || tag == 8 {
        proof {
            match exp {
                Some(ei) => {
                    match ei {
                        Instruction::JumpTo(t) => {
                            assert(enc_instruction(ei) == seq![0u8] + enc_u64(t as u64));
                            lemma_split_at(bytes@, pos as int, seq![0u8], enc_u64(t as u64));
                        },
                        Instruction::JumpIfFalse(t) => {
                            assert(enc_instruction(ei) == seq![1u8] + enc_u64(t as u64));
                            lemma_split_at(bytes@, pos as int, seq![1u8], enc_u64(t as u64));
                        },
                        Instruction::PushNumber(n) => {
                            assert(enc_instruction(ei) == seq![8u8] + enc_u64(n as u64));
                            lemma_split_at(bytes@, pos as int, seq![8u8], enc_u64(n as u64));
                        },
                        _ => {
                            assert(false);
                        },
                    }
                },
                None => {},
            }
        }
        let (x, p2) = match read_u64(bytes, p) {
            Some(pair) => pair,
            None => {
                return None;
            },
        };
        proof {
            match exp {
                Some(ei) => {
                    match ei {
                        Instruction::JumpTo(t) => {
                            lemma_u64_inj(x, t as u64);
                        },
                        Instruction::JumpIfFalse(t) => {
                            lemma_u64_inj(x, t as u64);
                        },
                        Instruction::PushNumber(n) => {
                            lemma_u64_inj(x, n as u64);
                            assert(x as i64 == n) by (bit_vector)
                                requires
                                    x == n as u64,
                            ;
                        },
                        _ => {},
                    }
                },
                None => {},
            }
        }
        if tag == 0 {
            if x > usize::MAX as u64 {
                return None;
            }
            Some((Instruction::JumpTo(x as usize), p2))
        } else if tag == 1 {
            if x > usize::MAX as u64 {
                return None;
            }
            Some((Instruction::JumpIfFalse(x as usize), p2))
        } else {
            Some((Instruction::PushNumber(x as i64), p2))
        }
    } else if tag == 3 || tag == 4 {
        let ghost expected_chars: Option<Seq<char>> = match exp {
            Some(Instruction::RunLine(id, _)) => Some(id@),
            Some(Instruction::RunCommand(text, _)) => Some(text@),
            _ => None,
        };
        proof {
            match exp {
                Some(ei) => {
                    match ei {
                        Instruction::RunLine(id, k) => {
                            assert(enc_instruction(ei) == seq![3u8] + enc_str(id@) + enc_u64(
                                k as u64,
                            ));
                            lemma_assoc(seq![3u8], enc_str(id@), enc_u64(k as u64));
                            lemma_split_at(bytes@, pos as int, seq![3u8], enc_str(id@) + enc_u64(
                                k as u64,
                            ));
                            lemma_split_at(bytes@, pos + 1, enc_str(id@), enc_u64(k as u64));
                            lemma_enc_chars_len(id@);
                        },
                        Instruction::RunCommand(text, k) => {
                            assert(enc_instruction(ei) == seq![4u8] + enc_str(text@) + enc_u64(
                                k as u64,
                            ));
                            lemma_assoc(seq![4u8], enc_str(text@), enc_u64(k as u64));
                            lemma_split_at(bytes@, pos as int, seq![4u8], enc_str(text@)
                                + enc_u64(k as u64));
                            lemma_split_at(bytes@, pos + 1, enc_str(text@), enc_u64(k as u64));
                            lemma_enc_chars_len(text@);
                        },
                        _ => {
                            assert(false);
                        },
                    }
                },
                None => {},
            }
        }
        let (s, p2) = match read_str(bytes, p, Ghost(expected_chars)) {
            Some(pair) => pair,
            None => {
                return None;
            },
        };
        let (k, p3) = match read_u64(bytes, p2) {
            Some(pair) => pair,
            None => {
                return None;
            },
        };
        proof {
            match exp {
                Some(ei) => {
                    match ei {
                        Instruction::RunLine(_, ek) => {
                            lemma_u64_inj(k, ek as u64);
                        },
                        Instruction::RunCommand(_, ek) => {
                            lemma_u64_inj(k, ek as u64);
                        },
                        _ => {},
                    }
                },
                None => {},
            }
        }
        if k > usize::MAX as u64 {
            return None;
        }
        if tag == 3 {
            Some((Instruction::RunLine(s, k as usize), p3))
        } else {
            Some((Instruction::RunCommand(s, k as usize), p3))
        }
    } else if tag == 5 {
        let ghost expected_chars: Option<Seq<char>> = match exp {
            Some(Instruction::AddOption(id, _, _, _)) => Some(id@),
            _ => None,
        };
        proof {
            match exp {
                Some(ei) => {
                    match ei {
                        Instruction::AddOption(id, d, k, c) => {
                            let cb = seq![
                                if c {
                                    1u8
                                } else {
                                    0u8
                                },
                            ];
                            assert(enc_instruction(ei) == seq![5u8] + enc_str(id@) + enc_u64(
                                d as u64,
                            ) + enc_u64(k as u64) + cb);
                            assert(enc_instruction(ei) =~= seq![5u8] + (enc_str(id@) + (enc_u64(
                                d as u64,
                            ) + (enc_u64(k as u64) + cb))));
                            lemma_split_at(bytes@, pos as int, seq![5u8], enc_str(id@) + (
                            enc_u64(d as u64) + (enc_u64(k as u64) + cb)));
                            lemma_split_at(bytes@, pos + 1, enc_str(id@), enc_u64(d as u64) + (
                            enc_u64(k as u64) + cb));
                            lemma_split_at(bytes@, pos + 1 + enc_str(id@).len(), enc_u64(
                                d as u64,
                            ), enc_u64(k as u64) + cb);
                            lemma_split_at(bytes@, pos + 1 + enc_str(id@).len() + 8, enc_u64(
                                k as u64,
                            ), cb);
                            lemma_enc_chars_len(id@);
                        },
                        _ => {
                            assert(false);
                        },
                    }
                },
                None => {},
            }
        }
        let (s, p2) = match read_str(bytes, p, Ghost(expected_chars)) {
            Some(pair) => pair,
            None => {
                return None;
            },
        };
        let (d, p3) = match read_u64(bytes, p2) {
            Some(pair) => pair,
            None => {
                return None;
            },
        };
        let (k, p4) = match read_u64(bytes, p3) {
            Some(pair) => pair,
            None => {
                return None;
            },
        };
        proof {
            match exp {
                Some(ei) => {
                    match ei {
                        Instruction::AddOption(_, ed, ek, ec) => {
                            lemma_u64_inj(d, ed as u64);
                            lemma_u64_inj(k, ek as u64);
                            assert(bytes@.subrange(
                                pos + enc_instruction(ei).len() - 1,
                                pos + enc_instruction(ei).len(),
                            )[0] == (if ec {
                                1u8
                            } else {
                                0u8
                            }));
                        },
                        _ => {},
                    }
                },
                None => {},
            }
        }
        if p4 >= bytes.len() {
            return None;
        }
        if d > usize::MAX as u64 || k > usize::MAX as u64 {
            return None;
        }
        Some((Instruction::AddOption(s, d as usize, k as usize, bytes[p4] == 1), p4 + 1))
    } else if tag == 7 || tag == 12 || tag == 13 || tag == 14 {
        let ghost expected_chars: Option<Seq<char>> = match exp {
            Some(Instruction::PushString(t)) => Some(t@),
            Some(Instruction::CallFunc(t)) => Some(t@),
            Some(Instruction::PushVariable(t)) => Some(t@),
            Some(Instruction::StoreVariable(t)) => Some(t@),
            _ => None,
        };
        proof {
            match exp {
                Some(ei) => {
                    match ei {
                        Instruction::PushString(t) => {
                            assert(enc_instruction(ei) == seq![7u8] + enc_str(t@));
                            lemma_split_at(bytes@, pos as int, seq![7u8], enc_str(t@));
                            lemma_enc_chars_len(t@);
                        },
                        Instruction::CallFunc(t) => {
                            assert(enc_instruction(ei) == seq![12u8] + enc_str(t@));
                            lemma_split_at(bytes@, pos as int, seq![12u8], enc_str(t@));
                            lemma_enc_chars_len(t@);
                        },
                        Instruction::PushVariable(t) => {
                            assert(enc_instruction(ei) == seq![13u8] + enc_str(t@));
                            lemma_split_at(bytes@, pos as int, seq![13u8], enc_str(t@));
                            lemma_enc_chars_len(t@);
                        },
                        Instruction::StoreVariable(t) => {
                            assert(enc_instruction(ei) == seq![14u8] + enc_str(t@));
                            lemma_split_at(bytes@, pos as int, seq![14u8], enc_str(t@));
                            lemma_enc_chars_len(t@);
                        },
                        _ => {
                            assert(false);
                        },
                    }
                },
                None => {},
            }
        }
        let (s, p2) = match read_str(bytes, p, Ghost(expected_chars)) {
            Some(pair) => pair,
            None => {
                return None;
            },
        };
        if tag == 7 {
            Some((Instruction::PushString(s), p2))
        } else if tag == 12 {
            Some((Instruction::CallFunc(s), p2))
        } else if tag == 13 {
            Some((Instruction::PushVariable(s), p2))
        } else {
            Some((Instruction::StoreVariable(s), p2))
        }
    } else if tag == 9 {
        if p >= bytes.len() {
        proof {
            match exp {
                Some(ei) => {
                    assert(false);
                },
                None => {},
            }
        }
            return None;
        }
        proof {
            match exp {
                Some(ei) => {
                    match ei {
                        Instruction::PushBool(b) => {
                            assert(bytes@.subrange(pos as int, pos + enc_instruction(ei).len())[1]
                                == enc_instruction(ei)[1]);
                        },
                        _ => {
                            assert(false);
                        },
                    }
                },
                None => {},
            }
        }
        Some((Instruction::PushBool(bytes[p] == 1), p + 1))
    } else if tag == 2 {
        Some((Instruction::Jump, p))
    } else if tag == 6 {
        Some((Instruction::ShowOptions, p))
    } else if tag == 10 {
        Some((Instruction::PushNull, p))
    } else if tag == 11 {
        Some((Instruction::Pop, p))
    } else if tag == 15 {
        Some((Instruction::Stop, p))
    } else if tag == 16 {
        Some((Instruction::RunNode, p))
    } else if tag == 17 {
        Some((Instruction::AddSaltyDeterministicShuffleToQueue, p))
    } else {
        proof {
            match exp {
                Some(ei) => {
                    assert(false);
                },
                None => {},
            }
        }
        None
    }
}

fn read_count(bytes: &Vec<u8>, pos: usize, Ghost(exp): Ghost<Option<u64>>) -> (r: Option<
    (usize, usize),
>)
    requires
        pos <= bytes@.len(),
        exp matches Some(n) ==> pos + 8 <= bytes@.len() && bytes@.subrange(pos as int, pos + 8)
            == enc_u64(n) && n <= bytes@.len(),
    ensures
        r matches Some(pair) ==> pos < pair.1 <= bytes@.len() && pair.1 == pos + 8,
        exp matches Some(n) ==> (r matches Some(pair) && pair.0 == n && pair.1 == pos + 8),
{
    let (x, p) = match read_u64(bytes, pos) {
        Some(pair) => pair,
        None => {
            return None;
        },
    };
    proof {
        match exp {
            Some(n) => {
                lemma_u64_inj(x, n);
            },
            None => {},
        }
    }
    if x > bytes.len() as u64 {
        // No well-formed encoding holds more elements than bytes.
        return None;
    }
    Some((x as usize, p))
}

#[verifier::loop_isolation(false)]
#[verifier::rlimit(100)]
#[verifier::spinoff_prover]
fn read_instruction_blocks(
    bytes: &Vec<u8>,
    pos: usize,
    count: usize,
    Ghost(exp): Ghost<Option<Seq<Instruction>>>,
) -> (r: Option<(Vec<Instruction>, usize)>)
    requires
        pos <= bytes@.len(),
        exp matches Some(v) ==> count == v.len() && instructions_encodable(v) && pos + enc_instructions(
            v,
        ).len() <= bytes@.len() && bytes@.subrange(pos as int, pos + enc_instructions(v).len())
            == enc_instructions(v),
    ensures
        r matches Some(pair) ==> pos <= pair.1 <= bytes@.len() && pair.0@.len() == count,
        exp matches Some(v) ==> (r matches Some(pair) && enc_instructions(pair.0@) == enc_instructions(v)
            && pair.1 == pos + enc_instructions(v).len()),
{
    let ghost has = exp is Some;
    let ghost v: Seq<Instruction> = match exp {
        Some(v) => v,
        None => Seq::empty(),
    };
    proof {
        if has {
            assert(v.subrange(0, 0) =~= Seq::<Instruction>::empty());
            assert(v.subrange(0, v.len() as int) =~= v);
        }
    }
    let mut out: Vec<Instruction> = Vec::new();
    let mut i: usize = 0;
    let mut p: usize = pos;
    while i < count
        invariant
            pos <= p <= bytes@.len(),
            out@.len() == i,
            i <= count,
            has ==> count == v.len(),
            has ==> p == pos + enc_instructions(v.subrange(0, i as int)).len(),
            has ==> enc_instructions(out@) == enc_instructions(v.subrange(0, i as int)),
            has ==> bytes@.subrange(p as int, pos + enc_instructions(v).len()) == enc_instructions(
                v.subrange(i as int, v.len() as int),
            ),
            has ==> pos + enc_instructions(v).len() <= bytes@.len(),
        decreases count - i,
    {
        let ghost rem = if has {
            v.subrange(i as int, v.len() as int)
        } else {
            Seq::empty()
        };
        proof {
            if has {
                assert(rem.len() > 0);
                assert(rem[0] == v[i as int]);
                assert(rem.drop_first() =~= v.subrange(i + 1, v.len() as int));
                lemma_enc_instructions_cat(v, i as int);
                assert(enc_instructions(rem) == enc_block(enc_instruction(rem[0])) + enc_instructions(
                    rem.drop_first(),
                ));
                lemma_assoc(enc_u64(enc_instruction(rem[0]).len() as u64), enc_instruction(rem[0]),
                    enc_instructions(rem.drop_first()));
                lemma_split_at(bytes@, p as int, enc_u64(enc_instruction(rem[0]).len() as u64),
                    enc_instruction(rem[0]) + enc_instructions(rem.drop_first()));
                lemma_split_at(bytes@, p + 8, enc_instruction(rem[0]), enc_instructions(rem.drop_first()));
                assert(instruction_encodable(rem[0]) && enc_instruction(rem[0]).len() <= u64::MAX);
            }
        }
        let (_block_len, q) = match read_u64(bytes, p) {
            Some(pair) => pair,
            None => {
                return None;
            },
        };
        let ghost expected_elem: Option<Instruction> = if has {
            Some(rem[0])
        } else {
            None
        };
        let (inst, q2) = match read_instruction(bytes, q, Ghost(expected_elem)) {
            Some(pair) => pair,
            None => {
                return None;
            },
        };
        let ghost out_pre = out@;
        out.push(inst);
        proof {
            if has {
                assert(enc_block(enc_instruction(inst)) == enc_block(enc_instruction(rem[0])));
            }
        }
        p = q2;

        proof {
            if has {
                lemma_snoc_instructions(v, i as int);
                lemma_snoc_instructions(out@, i as int);
                assert(out@.subrange(0, i as int) =~= out@.subrange(0, out@.len() - 1));
                assert(out@.subrange(0, out@.len() as int) =~= out@);
                assert(out@[i as int] == out@.last());
                assert(rem[0] == v[i as int]);
                assert(out@.subrange(0, i as int) =~= out_pre);
                assert(enc_instructions(out@.subrange(0, i as int)) == enc_instructions(
                    v.subrange(0, i as int),
                ));
                assert(enc_instructions(out@) == enc_instructions(v.subrange(0, i + 1)));
            }
        }
        i += 1;
    }
    proof {
        if has {
            assert(v.subrange(v.len() as int, v.len() as int) =~= Seq::<Instruction>::empty());
        }
    }
    Some((out, p))
}

#[verifier::loop_isolation(false)]
#[verifier::rlimit(100)]
#[verifier::spinoff_prover]
fn read_label_blocks(
    bytes: &Vec<u8>,
    pos: usize,
    count: usize,
    Ghost(exp): Ghost<Option<Seq<(String, usize)>>>,
) -> (r: Option<(Vec<(String, usize)>, usize)>)
    requires
        pos <= bytes@.len(),
        exp matches Some(v) ==> count == v.len() && labels_encodable(v) && pos + enc_labels(
            v,
        ).len() <= bytes@.len() && bytes@.subrange(pos as int, pos + enc_labels(v).len())
            == enc_labels(v),
    ensures
        r matches Some(pair) ==> pos <= pair.1 <= bytes@.len() && pair.0@.len() == count,
        exp matches Some(v) ==> (r matches Some(pair) && enc_labels(pair.0@) == enc_labels(v)
            && pair.1 == pos + enc_labels(v).len()),
{
    let ghost has = exp is Some;
    let ghost v: Seq<(String, usize)> = match exp {
        Some(v) => v,
        None => Seq::empty(),
    };
    proof {
        if has {
            assert(v.subrange(0, 0) =~= Seq::<(String, usize)>::empty());
            assert(v.subrange(0, v.len() as int) =~= v);
        }
    }
    let mut out: Vec<(String, usize)> = Vec::new();
    let mut i: usize = 0;
    let mut p: usize = pos;
    while i < count
        invariant
            pos <= p <= bytes@.len(),
            out@.len() == i,
            i <= count,
            has ==> count == v.len(),
            has ==> p == pos + enc_labels(v.subrange(0, i as int)).len(),
            has ==> enc_labels(out@) == enc_labels(v.subrange(0, i as int)),
            has ==> bytes@.subrange(p as int, pos + enc_labels(v).len()) == enc_labels(
                v.subrange(i as int, v.len() as int),
            ),
            has ==> pos + enc_labels(v).len() <= bytes@.len(),
        decreases count - i,
    {
        let ghost rem = if has {
            v.subrange(i as int, v.len() as int)
        } else {
            Seq::empty()
        };
        proof {
            if has {
                assert(rem.len() > 0);
                assert(rem[0] == v[i as int]);
                assert(rem.drop_first() =~= v.subrange(i + 1, v.len() as int));
                lemma_enc_labels_cat(v, i as int);
                assert(enc_labels(rem) == enc_block(enc_label(rem[0])) + enc_labels(
                    rem.drop_first(),
                ));
                lemma_assoc(enc_u64(enc_label(rem[0]).len() as u64), enc_label(rem[0]),
                    enc_labels(rem.drop_first()));
                lemma_split_at(bytes@, p as int, enc_u64(enc_label(rem[0]).len() as u64),
                    enc_label(rem[0]) + enc_labels(rem.drop_first()));
                lemma_split_at(bytes@, p + 8, enc_label(rem[0]), enc_labels(rem.drop_first()));
                assert(rem[0].0@.len() <= u64::MAX && enc_label(rem[0]).len() <= u64::MAX);
            }
        }
        let (_block_len, q) = match read_u64(bytes, p) {
            Some(pair) => pair,
            None => {
                return None;
            },
        };
        let ghost expected_chars: Option<Seq<char>> = if has {
            Some(rem[0].0@)
        } else {
            None
        };
        proof {
            if has {
                assert(enc_label(rem[0]) == enc_str(rem[0].0@) + enc_u64(rem[0].1 as u64));
                lemma_split_at(bytes@, q as int, enc_str(rem[0].0@), enc_u64(rem[0].1 as u64));
                lemma_enc_chars_len(rem[0].0@);
            }
        }
        let (label_name, q2) = match read_str(bytes, q, Ghost(expected_chars)) {
            Some(pair) => pair,
            None => {
                return None;
            },
        };
        let (position, q3) = match read_u64(bytes, q2) {
            Some(pair) => pair,
            None => {
                return None;
            },
        };
        proof {
            if has {
                lemma_u64_inj(position, rem[0].1 as u64);
            }
        }
        if position > usize::MAX as u64 {
            return None;
        }
        let ghost out_pre = out@;
        out.push((label_name, position as usize));
        proof {
            if has {
                assert(enc_label(out@.last()) == enc_label(rem[0]));
                assert(enc_block(enc_label(out@.last())) == enc_block(enc_label(rem[0])));
            }
        }
        p = q3;

        proof {
            if has {
                lemma_snoc_labels(v, i as int);
                lemma_snoc_labels(out@, i as int);
                assert(out@.subrange(0, i as int) =~= out@.subrange(0, out@.len() - 1));
                assert(out@.subrange(0, out@.len() as int) =~= out@);
                assert(out@[i as int] == out@.last());
                assert(rem[0] == v[i as int]);
                assert(out@.subrange(0, i as int) =~= out_pre);
                assert(enc_labels(out@.subrange(0, i as int)) == enc_labels(
                    v.subrange(0, i as int),
                ));
                assert(enc_labels(out@) == enc_labels(v.subrange(0, i + 1)));
            }
        }
        i += 1;
    }
    proof {
        if has {
            assert(v.subrange(v.len() as int, v.len() as int) =~= Seq::<(String, usize)>::empty());
        }
    }
    Some((out, p))
}

#[verifier::loop_isolation(false)]
#[verifier::rlimit(100)]
#[verifier::spinoff_prover]
fn read_string_blocks(
    bytes: &Vec<u8>,
    pos: usize,
    count: usize,
    Ghost(exp): Ghost<Option<Seq<String>>>,
) -> (r: Option<(Vec<String>, usize)>)
    requires
        pos <= bytes@.len(),
        exp matches Some(v) ==> count == v.len() && strings_encodable(v) && pos + enc_strings(
            v,
        ).len() <= bytes@.len() && bytes@.subrange(pos as int, pos + enc_strings(v).len())
            == enc_strings(v),
    ensures
        r matches Some(pair) ==> pos <= pair.1 <= bytes@.len() && pair.0@.len() == count,
        exp matches Some(v) ==> (r matches Some(pair) && enc_strings(pair.0@) == enc_strings(v)
            && pair.1 == pos + enc_strings(v).len()),
{
    let ghost has = exp is Some;
    let ghost v: Seq<String> = match exp {
        Some(v) => v,
        None => Seq::empty(),
    };
    proof {
        if has {
            assert(v.subrange(0, 0) =~= Seq::<String>::empty());
            assert(v.subrange(0, v.len() as int) =~= v);
        }
    }
    let mut out: Vec<String> = Vec::new();
    let mut i: usize = 0;
    let mut p: usize = pos;
    while i < count
        invariant
            pos <= p <= bytes@.len(),
            out@.len() == i,
            i <= count,
            has ==> count == v.len(),
            has ==> p == pos + enc_strings(v.subrange(0, i as int)).len(),
            has ==> enc_strings(out@) == enc_strings(v.subrange(0, i as int)),
            has ==> bytes@.subrange(p as int, pos + enc_strings(v).len()) == enc_strings(
                v.subrange(i as int, v.len() as int),
            ),
            has ==> pos + enc_strings(v).len() <= bytes@.len(),
        decreases count - i,
    {
        let ghost rem = if has {
            v.subrange(i as int, v.len() as int)
        } else {
            Seq::empty()
        };
        proof {
            if has {
                assert(rem.len() > 0);
                assert(rem[0] == v[i as int]);
                assert(rem.drop_first() =~= v.subrange(i + 1, v.len() as int));
                lemma_enc_strings_cat(v, i as int);
                assert(enc_strings(rem) == enc_block(enc_string_elem(rem[0])) + enc_strings(
                    rem.drop_first(),
                ));
                lemma_assoc(enc_u64(enc_string_elem(rem[0]).len() as u64), enc_string_elem(rem[0]),
                    enc_strings(rem.drop_first()));
                lemma_split_at(bytes@, p as int, enc_u64(enc_string_elem(rem[0]).len() as u64),
                    enc_string_elem(rem[0]) + enc_strings(rem.drop_first()));
                lemma_split_at(bytes@, p + 8, enc_string_elem(rem[0]), enc_strings(rem.drop_first()));
                assert(rem[0]@.len() <= u64::MAX && enc_string_elem(rem[0]).len() <= u64::MAX);
            }
        }
        let (_block_len, q) = match read_u64(bytes, p) {
            Some(pair) => pair,
            None => {
                return None;
            },
        };
        let ghost expected_chars: Option<Seq<char>> = if has {
            Some(rem[0]@)
        } else {
            None
        };
        proof {
            if has {
                assert(enc_string_elem(rem[0]) == enc_str(rem[0]@));
                lemma_enc_chars_len(rem[0]@);
            }
        }
        let (tag_text, q2) = match read_str(bytes, q, Ghost(expected_chars)) {
            Some(pair) => pair,
            None => {
                return None;
            },
        };
        let ghost out_pre = out@;
        out.push(tag_text);
        proof {
            if has {
                assert(enc_string_elem(out@.last()) == enc_string_elem(rem[0]));
                assert(enc_block(enc_string_elem(out@.last())) == enc_block(enc_string_elem(
                    rem[0],
                )));
            }
        }
        p = q2;

        proof {
            if has {
                lemma_snoc_strings(v, i as int);
                lemma_snoc_strings(out@, i as int);
                assert(out@.subrange(0, i as int) =~= out@.subrange(0, out@.len() - 1));
                assert(out@.subrange(0, out@.len() as int) =~= out@);
                assert(out@[i as int] == out@.last());
                assert(rem[0] == v[i as int]);
                assert(out@.subrange(0, i as int) =~= out_pre);
                assert(enc_strings(out@.subrange(0, i as int)) == enc_strings(
                    v.subrange(0, i as int),
                ));
                assert(enc_strings(out@) == enc_strings(v.subrange(0, i + 1)));
            }
        }
        i += 1;
    }
    proof {
        if has {
            assert(v.subrange(v.len() as int, v.len() as int) =~= Seq::<String>::empty());
        }
    }
    Some((out, p))
}

#[verifier::loop_isolation(false)]
#[verifier::rlimit(100)]
#[verifier::spinoff_prover]
fn read_header_blocks(
    bytes: &Vec<u8>,
    pos: usize,
    count: usize,
    Ghost(exp): Ghost<Option<Seq<(String, String)>>>,
) -> (r: Option<(Vec<(String, String)>, usize)>)
    requires
        pos <= bytes@.len(),
        exp matches Some(v) ==> count == v.len() && headers_encodable(v) && pos + enc_headers(
            v,
        ).len() <= bytes@.len() && bytes@.subrange(pos as int, pos + enc_headers(v).len())
            == enc_headers(v),
    ensures
        r matches Some(pair) ==> pos <= pair.1 <= bytes@.len() && pair.0@.len() == count,
        exp matches Some(v) ==> (r matches Some(pair) && enc_headers(pair.0@) == enc_headers(v)
            && pair.1 == pos + enc_headers(v).len()),
{
    let ghost has = exp is Some;
    let ghost v: Seq<(String, String)> = match exp {
        Some(v) => v,
        None => Seq::empty(),
    };
    proof {
        if has {
            assert(v.subrange(0, 0) =~= Seq::<(String, String)>::empty());
            assert(v.subrange(0, v.len() as int) =~= v);
        }
    }
    let mut out: Vec<(String, String)> = Vec::new();
    let mut i: usize = 0;
    let mut p: usize = pos;
    while i < count
        invariant
            pos <= p <= bytes@.len(),
            out@.len() == i,
            i <= count,
            has ==> count == v.len(),
            has ==> p == pos + enc_headers(v.subrange(0, i as int)).len(),
            has ==> enc_headers(out@) == enc_headers(v.subrange(0, i as int)),
            has ==> bytes@.subrange(p as int, pos + enc_headers(v).len()) == enc_headers(
                v.subrange(i as int, v.len() as int),
            ),
            has ==> pos + enc_headers(v).len() <= bytes@.len(),
        decreases count - i,
    {
        let ghost rem = if has {
            v.subrange(i as int, v.len() as int)
        } else {
            Seq::empty()
        };
        proof {
            if has {
                assert(rem.len() > 0);
                assert(rem[0] == v[i as int]);
                assert(rem.drop_first() =~= v.subrange(i + 1, v.len() as int));
                lemma_enc_headers_cat(v, i as int);
                assert(enc_headers(rem) == enc_block(enc_header(rem[0])) + enc_headers(
                    rem.drop_first(),
                ));
                lemma_assoc(enc_u64(enc_header(rem[0]).len() as u64), enc_header(rem[0]),
                    enc_headers(rem.drop_first()));
                lemma_split_at(bytes@, p as int, enc_u64(enc_header(rem[0]).len() as u64),
                    enc_header(rem[0]) + enc_headers(rem.drop_first()));
                lemma_split_at(bytes@, p + 8, enc_header(rem[0]), enc_headers(rem.drop_first()));
                assert(rem[0].0@.len() <= u64::MAX && rem[0].1@.len() <= u64::MAX && enc_header(rem[0]).len() <= u64::MAX);
            }
        }
        let (_block_len, q) = match read_u64(bytes, p) {
            Some(pair) => pair,
            None => {
                return None;
            },
        };
        let ghost expected_key: Option<Seq<char>> = if has {
            Some(rem[0].0@)
        } else {
            None
        };
        proof {
            if has {
                assert(enc_header(rem[0]) == enc_str(rem[0].0@) + enc_str(rem[0].1@));
                lemma_split_at(bytes@, q as int, enc_str(rem[0].0@), enc_str(rem[0].1@));
                lemma_enc_chars_len(rem[0].0@);
                lemma_enc_chars_len(rem[0].1@);
            }
        }
        let (key, q2) = match read_str(bytes, q, Ghost(expected_key)) {
            Some(pair) => pair,
            None => {
                return None;
            },
        };
        let ghost expected_val: Option<Seq<char>> = if has {
            Some(rem[0].1@)
        } else {
            None
        };
        let (value, q3) = match read_str(bytes, q2, Ghost(expected_val)) {
            Some(pair) => pair,
            None => {
                return None;
            },
        };
        let ghost out_pre = out@;
        out.push((key, value));
        proof {
            if has {
                assert(enc_header(out@.last()) == enc_header(rem[0]));
                assert(enc_block(enc_header(out@.last())) == enc_block(enc_header(rem[0])));
            }
        }
        p = q3;

        proof {
            if has {
                lemma_snoc_headers(v, i as int);
                lemma_snoc_headers(out@, i as int);
                assert(out@.subrange(0, i as int) =~= out@.subrange(0, out@.len() - 1));
                assert(out@.subrange(0, out@.len() as int) =~= out@);
                assert(out@[i as int] == out@.last());
                assert(rem[0] == v[i as int]);
                assert(out@.subrange(0, i as int) =~= out_pre);
                assert(enc_headers(out@.subrange(0, i as int)) == enc_headers(
                    v.subrange(0, i as int),
                ));
                assert(enc_headers(out@) == enc_headers(v.subrange(0, i + 1)));
            }
        }
        i += 1;
    }
    proof {
        if has {
            assert(v.subrange(v.len() as int, v.len() as int) =~= Seq::<(String, String)>::empty());
        }
    }
    Some((out, p))
}

#[verifier::loop_isolation(false)]
#[verifier::rlimit(100)]
#[verifier::spinoff_prover]
fn read_node(bytes: &Vec<u8>, pos: usize, Ghost(exp): Ghost<Option<Node>>) -> (r: Option<
    (Node, usize),
>)
    requires
        pos <= bytes@.len(),
        exp matches Some(en) ==> node_encodable(en) && pos + enc_node(en).len() <= bytes@.len()
            && bytes@.subrange(pos as int, pos + enc_node(en).len()) == enc_node(en),
    ensures
        r matches Some(pair) ==> pos < pair.1 <= bytes@.len(),
        exp matches Some(en) ==> (r matches Some(pair) && enc_node(pair.0) == enc_node(en)
            && pair.1 == pos + enc_node(en).len()),
{
    let ghost has = exp is Some;
    let ghost en: Node = match exp {
        Some(n) => n,
        None => arbitrary(),
    };
    let ghost s9 = enc_headers(en.headers@);
    let ghost s8 = enc_u64(en.headers@.len() as u64) + s9;
    let ghost s7 = enc_strings(en.tags@) + s8;
    let ghost s6 = enc_u64(en.tags@.len() as u64) + s7;
    let ghost s5 = enc_labels(en.labels@) + s6;
    let ghost s4 = enc_u64(en.labels@.len() as u64) + s5;
    let ghost s3 = enc_instructions(en.instructions@) + s4;
    let ghost s2 = enc_u64(en.instructions@.len() as u64) + s3;
    let ghost s1 = enc_str(en.source_file@) + s2;
    proof {
        if has {
            reveal(enc_node);
            assert(enc_node(en) == enc_str(en.name@) + s1);
            lemma_split_at(bytes@, pos as int, enc_str(en.name@), s1);
            lemma_enc_chars_len(en.name@);
        }
    }
    let ghost name_expected: Option<Seq<char>> = if has {
        Some(en.name@)
    } else {
        None
    };
    let (name, p1) = match read_str(bytes, pos, Ghost(name_expected)) {
        Some(pair) => pair,
        None => {
            return None;
        },
    };
    proof {
        if has {
            lemma_split_at(bytes@, p1 as int, enc_str(en.source_file@), s2);
            lemma_enc_chars_len(en.source_file@);
        }
    }
    let ghost src_expected: Option<Seq<char>> = if has {
        Some(en.source_file@)
    } else {
        None
    };
    let (source_file, p2) = match read_str(bytes, p1, Ghost(src_expected)) {
        Some(pair) => pair,
        None => {
            return None;
        },
    };
    let ghost icnt_expected: Option<u64> = if has {
        Some(en.instructions@.len() as u64)
    } else {
        None
    };
    proof {
        if has {
            lemma_split_at(bytes@, p2 as int, enc_u64(en.instructions@.len() as u64), s3);
            lemma_enc_instructions_count(en.instructions@);
            assert(en.instructions@.len() <= bytes@.len());
        }
    }
    let (n_instructions, p2b) = match read_count(bytes, p2, Ghost(icnt_expected)) {
        Some(pair) => pair,
        None => {
            return None;
        },
    };
    proof {
        if has {
            lemma_split_at(bytes@, p2b as int, enc_instructions(en.instructions@), s4);
        }
    }
    let ghost instr_expected: Option<Seq<Instruction>> = if has {
        Some(en.instructions@)
    } else {
        None
    };
    let (instructions, p) = match read_instruction_blocks(
        bytes,
        p2b,
        n_instructions,
        Ghost(instr_expected),
    ) {
        Some(pair) => pair,
        None => {
            return None;
        },
    };
    let ghost lcnt_expected: Option<u64> = if has {
        Some(en.labels@.len() as u64)
    } else {
        None
    };
    proof {
        if has {
            lemma_split_at(bytes@, p as int, enc_u64(en.labels@.len() as u64), s5);
            lemma_enc_labels_count(en.labels@);
            assert(en.labels@.len() <= bytes@.len());
        }
    }
    let (n_labels, p3b) = match read_count(bytes, p, Ghost(lcnt_expected)) {
        Some(pair) => pair,
        None => {
            return None;
        },
    };
    proof {
        if has {
            lemma_split_at(bytes@, p3b as int, enc_labels(en.labels@), s6);
        }
    }
    let ghost labels_expected: Option<Seq<(String, usize)>> = if has {
        Some(en.labels@)
    } else {
        None
    };
    let (labels, p3) = match read_label_blocks(bytes, p3b, n_labels, Ghost(labels_expected)) {
        Some(pair) => pair,
        None => {
            return None;
        },
    };
    let ghost tcnt_expected: Option<u64> = if has {
        Some(en.tags@.len() as u64)
    } else {
        None
    };
    proof {
        if has {
            lemma_split_at(bytes@, p3 as int, enc_u64(en.tags@.len() as u64), s7);
            lemma_enc_strings_count(en.tags@);
            assert(en.tags@.len() <= bytes@.len());
        }
    }
    let (n_tags, p4b) = match read_count(bytes, p3, Ghost(tcnt_expected)) {
        Some(pair) => pair,
        None => {
            return None;
        },
    };
    proof {
        if has {
            lemma_split_at(bytes@, p4b as int, enc_strings(en.tags@), s8);
        }
    }
    let ghost tags_expected: Option<Seq<String>> = if has {
        Some(en.tags@)
    } else {
        None
    };
    let (tags, p4) = match read_string_blocks(bytes, p4b, n_tags, Ghost(tags_expected)) {
        Some(pair) => pair,
        None => {
            return None;
        },
    };
    let ghost hcnt_expected: Option<u64> = if has {
        Some(en.headers@.len() as u64)
    } else {
        None
    };
    proof {
        if has {
            lemma_split_at(bytes@, p4 as int, enc_u64(en.headers@.len() as u64), s9);
            lemma_enc_headers_count(en.headers@);
            assert(en.headers@.len() <= bytes@.len());
        }
    }
    let (n_headers, p5b) = match read_count(bytes, p4, Ghost(hcnt_expected)) {
        Some(pair) => pair,
        None => {
            return None;
        },
    };
    let ghost headers_expected: Option<Seq<(String, String)>> = if has {
        Some(en.headers@)
    } else {
        None
    };
    let (headers, p5) = match read_header_blocks(bytes, p5b, n_headers, Ghost(headers_expected))
        {
        Some(pair) => pair,
        None => {
            return None;
        },
    };
    let out = Node { name, instructions, labels, tags, headers, source_file };
    proof {
        if has {
            reveal(enc_node);
            assert(enc_node(out) == enc_node(en));
        }
    }
    Some((out, p5))
}

#[verifier::rlimit(100)]
#[verifier::spinoff_prover]
proof fn lemma_nodes_pre(bytes: Seq<u8>, p: int, v: Seq<Node>, i: int, pos: int)
    requires
        0 <= pos <= p,
        0 <= i < v.len(),
        nodes_encodable(v),
        p == pos + enc_nodes(v.subrange(0, i)).len(),
        bytes.subrange(p, pos + enc_nodes(v).len()) == enc_nodes(
            v.subrange(i, v.len() as int),
        ),
        pos + enc_nodes(v).len() <= bytes.len(),
    ensures
        p + 8 + enc_node(v[i]).len() <= bytes.len(),
        bytes.subrange(p, p + 8) == enc_u64(enc_node(v[i]).len() as u64),
        bytes.subrange(p + 8, p + 8 + enc_node(v[i]).len()) == enc_node(v[i]),
        bytes.subrange(p + 8 + enc_node(v[i]).len(), pos + enc_nodes(v).len()) == enc_nodes(
            v.subrange(i + 1, v.len() as int),
        ),
        node_encodable(v[i]),
        enc_node(v[i]).len() <= u64::MAX,
        pos + enc_nodes(v.subrange(0, i + 1)).len() == p + 8 + enc_node(v[i]).len(),
{
    let rem = v.subrange(i, v.len() as int);
    assert(rem.len() > 0);
    assert(rem[0] == v[i]);
    assert(rem.drop_first() =~= v.subrange(i + 1, v.len() as int));
    lemma_enc_nodes_cat(v, i);
    assert(enc_nodes(rem) == enc_block(enc_node(rem[0])) + enc_nodes(rem.drop_first()));
    lemma_assoc(enc_u64(enc_node(rem[0]).len() as u64), enc_node(rem[0]), enc_nodes(
        rem.drop_first(),
    ));
    lemma_split_at(bytes, p, enc_u64(enc_node(rem[0]).len() as u64), enc_node(rem[0])
        + enc_nodes(rem.drop_first()));
    lemma_split_at(bytes, p + 8, enc_node(rem[0]), enc_nodes(rem.drop_first()));
    lemma_snoc_nodes(v, i);
}

#[verifier::rlimit(100)]
#[verifier::spinoff_prover]
proof fn lemma_nodes_post(v: Seq<Node>, i: int, out_pre: Seq<Node>, out: Seq<Node>)
    requires
        0 <= i < v.len(),
        out.len() == i + 1,
        out.subrange(0, i) == out_pre,
        enc_nodes(out_pre) == enc_nodes(v.subrange(0, i)),
        enc_node(out[i]) == enc_node(v[i]),
    ensures
        enc_nodes(out) == enc_nodes(v.subrange(0, i + 1)),
{
    lemma_snoc_nodes(v, i);
    lemma_snoc_nodes(out, i);
    assert(out.subrange(0, out.len() as int) =~= out);
    assert(out[i] == out.last());
    assert(enc_block(enc_node(out[i])) == enc_block(enc_node(v[i])));
}

#[verifier::loop_isolation(false)]
#[verifier::rlimit(100)]
#[verifier::spinoff_prover]
fn read_node_blocks(
    bytes: &Vec<u8>,
    pos: usize,
    count: usize,
    Ghost(exp): Ghost<Option<Seq<Node>>>,
) -> (r: Option<(Vec<Node>, usize)>)
    requires
        pos <= bytes@.len(),
        exp matches Some(v) ==> count == v.len() && nodes_encodable(v) && pos + enc_nodes(
            v,
        ).len() <= bytes@.len() && bytes@.subrange(pos as int, pos + enc_nodes(v).len())
            == enc_nodes(v),
    ensures
        r matches Some(pair) ==> pos <= pair.1 <= bytes@.len() && pair.0@.len() == count,
        exp matches Some(v) ==> (r matches Some(pair) && enc_nodes(pair.0@) == enc_nodes(v)
            && pair.1 == pos + enc_nodes(v).len()),
{
    let ghost has = exp is Some;
    let ghost v: Seq<Node> = match exp {
        Some(v) => v,
        None => Seq::empty(),
    };
    proof {
        if has {
            assert(v.subrange(0, 0) =~= Seq::<Node>::empty());
            assert(v.subrange(0, v.len() as int) =~= v);
        }
    }
    let mut out: Vec<Node> = Vec::new();
    let mut i: usize = 0;
    let mut p: usize = pos;
    while i < count
        invariant
            pos <= p <= bytes@.len(),
            out@.len() == i,
            i <= count,
            has ==> count == v.len(),
            has ==> p == pos + enc_nodes(v.subrange(0, i as int)).len(),
            has ==> enc_nodes(out@) == enc_nodes(v.subrange(0, i as int)),
            has ==> bytes@.subrange(p as int, pos + enc_nodes(v).len()) == enc_nodes(
                v.subrange(i as int, v.len() as int),
            ),
            has ==> pos + enc_nodes(v).len() <= bytes@.len(),
        decreases count - i,
    {
        let ghost rem = if has {
            v.subrange(i as int, v.len() as int)
        } else {
            Seq::empty()
        };
        proof {
            if has {
                lemma_nodes_pre(bytes@, p as int, v, i as int, pos as int);
                assert(rem[0] == v[i as int]);
            }
        }
        let (_block_len, q) = match read_u64(bytes, p) {
            Some(pair) => pair,
            None => {
                return None;
            },
        };
        let ghost expected_elem: Option<Node> = if has {
            Some(rem[0])
        } else {
            None
        };
        let (node, q2) = match read_node(bytes, q, Ghost(expected_elem)) {
            Some(pair) => pair,
            None => {
                return None;
            },
        };
        let ghost out_pre = out@;
        out.push(node);
        proof {
            if has {
                assert(enc_node(out@.last()) == enc_node(rem[0]));
                assert(enc_block(enc_node(out@.last())) == enc_block(enc_node(rem[0])));
            }
        }
        p = q2;

        proof {
            if has {
                assert(out@.subrange(0, i as int) =~= out_pre);
                lemma_nodes_post(v, i as int, out_pre, out@);
            }
        }
        i += 1;
    }
    proof {
        if has {
            assert(v.subrange(v.len() as int, v.len() as int) =~= Seq::<Node>::empty());
        }
    }
    Some((out, p))
}

#[verifier::loop_isolation(false)]
#[verifier::rlimit(100)]
#[verifier::spinoff_prover]
fn read_initial_blocks(
    bytes: &Vec<u8>,
    pos: usize,
    count: usize,
    Ghost(exp): Ghost<Option<Seq<(String, Value)>>>,
) -> (r: Option<(Vec<(String, Value)>, usize)>)
    requires
        pos <= bytes@.len(),
        exp matches Some(v) ==> count == v.len() && initials_encodable(v) && pos + enc_initials(
            v,
        ).len() <= bytes@.len() && bytes@.subrange(pos as int, pos + enc_initials(v).len())
            == enc_initials(v),
    ensures
        r matches Some(pair) ==> pos <= pair.1 <= bytes@.len() && pair.0@.len() == count,
        exp matches Some(v) ==> (r matches Some(pair) && enc_initials(pair.0@) == enc_initials(v)
            && pair.1 == pos + enc_initials(v).len()),
{
    let ghost has = exp is Some;
    let ghost v: Seq<(String, Value)> = match exp {
        Some(v) => v,
        None => Seq::empty(),
    };
    proof {
        if has {
            assert(v.subrange(0, 0) =~= Seq::<(String, Value)>::empty());
            assert(v.subrange(0, v.len() as int) =~= v);
        }
    }
    let mut out: Vec<(String, Value)> = Vec::new();
    let mut i: usize = 0;
    let mut p: usize = pos;
    while i < count
        invariant
            pos <= p <= bytes@.len(),
            out@.len() == i,
            i <= count,
            has ==> count == v.len(),
            has ==> p == pos + enc_initials(v.subrange(0, i as int)).len(),
            has ==> enc_initials(out@) == enc_initials(v.subrange(0, i as int)),
            has ==> bytes@.subrange(p as int, pos + enc_initials(v).len()) == enc_initials(
                v.subrange(i as int, v.len() as int),
            ),
            has ==> pos + enc_initials(v).len() <= bytes@.len(),
        decreases count - i,
    {
        let ghost rem = if has {
            v.subrange(i as int, v.len() as int)
        } else {
            Seq::empty()
        };
        proof {
            if has {
                assert(rem.len() > 0);
                assert(rem[0] == v[i as int]);
                assert(rem.drop_first() =~= v.subrange(i + 1, v.len() as int));
                lemma_enc_initials_cat(v, i as int);
                assert(enc_initials(rem) == enc_block(enc_initial(rem[0])) + enc_initials(
                    rem.drop_first(),
                ));
                lemma_assoc(enc_u64(enc_initial(rem[0]).len() as u64), enc_initial(rem[0]),
                    enc_initials(rem.drop_first()));
                lemma_split_at(bytes@, p as int, enc_u64(enc_initial(rem[0]).len() as u64),
                    enc_initial(rem[0]) + enc_initials(rem.drop_first()));
                lemma_split_at(bytes@, p + 8, enc_initial(rem[0]), enc_initials(rem.drop_first()));
                assert(rem[0].0@.len() <= u64::MAX && value_encodable(rem[0].1) && enc_initial(rem[0]).len() <= u64::MAX);
            }
        }
        let (_block_len, q) = match read_u64(bytes, p) {
            Some(pair) => pair,
            None => {
                return None;
            },
        };
        let ghost expected_chars: Option<Seq<char>> = if has {
            Some(rem[0].0@)
        } else {
            None
        };
        proof {
            if has {
                assert(enc_initial(rem[0]) == enc_str(rem[0].0@) + enc_value(rem[0].1));
                lemma_split_at(bytes@, q as int, enc_str(rem[0].0@), enc_value(rem[0].1));
                lemma_enc_chars_len(rem[0].0@);
            }
        }
        let (name, q2) = match read_str(bytes, q, Ghost(expected_chars)) {
            Some(pair) => pair,
            None => {
                return None;
            },
        };
        let ghost expected_value: Option<Value> = if has {
            Some(rem[0].1)
        } else {
            None
        };
        let (value, q3) = match read_value(bytes, q2, Ghost(expected_value)) {
            Some(pair) => pair,
            None => {
                return None;
            },
        };
        let ghost out_pre = out@;
        out.push((name, value));
        proof {
            if has {
                assert(enc_initial(out@.last()) == enc_initial(rem[0]));
                assert(enc_block(enc_initial(out@.last())) == enc_block(enc_initial(rem[0])));
            }
        }
        p = q3;

        proof {
            if has {
                lemma_snoc_initials(v, i as int);
                lemma_snoc_initials(out@, i as int);
                assert(out@.subrange(0, i as int) =~= out@.subrange(0, out@.len() - 1));
                assert(out@.subrange(0, out@.len() as int) =~= out@);
                assert(out@[i as int] == out@.last());
                assert(rem[0] == v[i as int]);
                assert(out@.subrange(0, i as int) =~= out_pre);
                assert(enc_initials(out@.subrange(0, i as int)) == enc_initials(
                    v.subrange(0, i as int),
                ));
                assert(enc_initials(out@) == enc_initials(v.subrange(0, i + 1)));
            }
        }
        i += 1;
    }
    proof {
        if has {
            assert(v.subrange(v.len() as int, v.len() as int) =~= Seq::<(String, Value)>::empty());
        }
    }
    Some((out, p))
}

fn bytes_equal(a: &Vec<u8>, b: &Vec<u8>) -> (r: bool)
    ensures
        r == (a@ == b@),
{
    if a.len() != b.len() {
        assert(a@ != b@);
        return false;
    }
    let mut i: usize = 0;
    while i < a.len()
        invariant
            a@.len() == b@.len(),
            i <= a@.len(),
            forall|j: int| 0 <= j < i ==> a@[j] == b@[j],
        decreases a@.len() - i,
    {
        if a[i] != b[i] {
            assert(a@ != b@);
            return false;
        }
        i += 1;
    }
    proof {
        assert(a@ =~= b@);
    }
    true
}

/// Reads a program back from its stable binary form. Whatever is accepted
/// re-encodes to exactly the given bytes: the parsed program is serialized
/// again and compared. And reading is complete: the serialization of any
/// program within the encoding's range is accepted — by the faithfulness
/// law, as an equivalent program.
#[verifier::loop_isolation(false)]
#[verifier::rlimit(100)]
#[verifier::spinoff_prover]
pub fn deserialize_program(bytes: &Vec<u8>) -> (r: Option<Program>)
    ensures
        r matches Some(q) ==> enc_program(q) == bytes@,
        (exists|p: Program| program_encodable(p) && bytes@ == enc_program(p)) ==> r is Some,
{
    let ghost has = exists|p: Program| program_encodable(p) && bytes@ == enc_program(p);
    let ghost ep: Program = if has {
        choose|p: Program| program_encodable(p) && bytes@ == enc_program(p)
    } else {
        arbitrary()
    };
    let ghost t4 = enc_initials(ep.initial_values@);
    let ghost t3 = enc_u64(ep.initial_values@.len() as u64) + t4;
    let ghost t2 = enc_nodes(ep.nodes@) + t3;
    let ghost t1 = enc_u64(ep.nodes@.len() as u64) + t2;
    proof {
        if has {
            assert(enc_program(ep) == seq![FORMAT_VERSION] + t1);
            assert(bytes@.subrange(0, bytes@.len() as int) =~= bytes@);
            lemma_split_at(bytes@, 0, seq![FORMAT_VERSION], t1);
            assert(bytes@[0] == FORMAT_VERSION);
        }
    }
    if bytes.len() == 0 || bytes[0] != FORMAT_VERSION {
        proof {
            if has {
                assert(false);
            }
        }
        return None;
    }
    let ghost ncnt_expected: Option<u64> = if has {
        Some(ep.nodes@.len() as u64)
    } else {
        None
    };
    proof {
        if has {
            lemma_split_at(bytes@, 1, enc_u64(ep.nodes@.len() as u64), t2);
            lemma_enc_nodes_count(ep.nodes@);
            assert(ep.nodes@.len() <= bytes@.len());
        }
    }
    let (n_nodes, p0) = match read_count(bytes, 1, Ghost(ncnt_expected)) {
        Some(pair) => pair,
        None => {
            return None;
        },
    };
    proof {
        if has {
            lemma_split_at(bytes@, p0 as int, enc_nodes(ep.nodes@), t3);
        }
    }
    let ghost nodes_expected: Option<Seq<Node>> = if has {
        Some(ep.nodes@)
    } else {
        None
    };
    let (nodes, p) = match read_node_blocks(bytes, p0, n_nodes, Ghost(nodes_expected)) {
        Some(pair) => pair,
        None => {
            return None;
        },
    };
    let ghost icnt_expected: Option<u64> = if has {
        Some(ep.initial_values@.len() as u64)
    } else {
        None
    };
    proof {
        if has {
            lemma_split_at(bytes@, p as int, enc_u64(ep.initial_values@.len() as u64), t4);
            lemma_enc_initials_count(ep.initial_values@);
            assert(ep.initial_values@.len() <= bytes@.len());
        }
    }
    let (n_initials, p2) = match read_count(bytes, p, Ghost(icnt_expected)) {
        Some(pair) => pair,
        None => {
            return None;
        },
    };
    let ghost initials_expected: Option<Seq<(String, Value)>> = if has {
        Some(ep.initial_values@)
    } else {
        None
    };
    let (initial_values, _p3) = match read_initial_blocks(
        bytes,
        p2,
        n_initials,
        Ghost(initials_expected),
    ) {
        Some(pair) => pair,
        None => {
            return None;
        },
    };
    let program = Program { nodes, initial_values };
    proof {
        if has {
            assert(enc_program(program) =~= enc_program(ep));
        }
    }
    let check = serialize_program(&program);
    if bytes_equal(&check, bytes) {
        Some(program)
    } else {
        proof {
            if has {
                assert(check@ == bytes@);
                assert(false);
            }
        }
        None
    }
}

} // verus!
