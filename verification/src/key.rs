//! Structural keys for inline-schema deduplication: a canonical text
//! encoding of a schema's entire content, the hoister's dedup-cache key.
//! Schemas with identical parsed content always carry the same key.  The
//! encoding length-prefixes every embedded string so that content cannot
//! imitate its delimiters; that the key also separates distinct schemas is
//! the encoding's design intent, not a proved theorem.

use vstd::prelude::*;

use crate::document::{BoolOrSchema, JsonLit, Schema, SchemaOrRef, SchemaType, TypeSet};
use crate::strutil::{push_char, push_dec, spec_dec};

verus! {

/// A length-prefixed string: `<len>:<text>`.
pub open spec fn key_str(s: Seq<char>) -> Seq<char> {
    spec_dec(s.len()) + seq![':'] + s
}

/// `n` for absent, `s<len>:<text>` for present.
pub open spec fn key_opt_str(o: Option<String>) -> Seq<char> {
    match o {
        Option::None => seq!['n'],
        Option::Some(s) => seq!['s'] + key_str(s@),
    }
}

pub open spec fn key_bool(b: bool) -> Seq<char> {
    if b {
        seq!['t']
    } else {
        seq!['f']
    }
}

pub open spec fn key_opt_bool(o: Option<bool>) -> Seq<char> {
    match o {
        Option::None => seq!['n'],
        Option::Some(b) => key_bool(b),
    }
}

/// One letter per schema type.
pub open spec fn key_type(t: SchemaType) -> char {
    match t {
        SchemaType::Object => 'o',
        SchemaType::String => 's',
        SchemaType::Integer => 'i',
        SchemaType::Number => 'u',
        SchemaType::Boolean => 'b',
        SchemaType::Array => 'a',
        SchemaType::Null => 'z',
    }
}

pub open spec fn key_types(ts: Seq<SchemaType>) -> Seq<char>
    decreases ts,
{
    if ts.len() == 0 {
        Seq::empty()
    } else {
        seq![key_type(ts[0])] + key_types(ts.drop_first())
    }
}

pub open spec fn key_typeset(o: Option<TypeSet>) -> Seq<char> {
    match o {
        Option::None => seq!['n'],
        Option::Some(TypeSet::One(t)) => seq!['1', key_type(t)],
        Option::Some(TypeSet::Many(ts)) => seq!['m', '['] + key_types(ts@) + seq![']'],
    }
}

/// A signed decimal.
pub open spec fn key_int(i: int) -> Seq<char> {
    if i < 0 {
        seq!['-'] + spec_dec((-i) as nat)
    } else {
        spec_dec(i as nat)
    }
}

pub open spec fn key_lit(l: JsonLit) -> Seq<char> {
    match l {
        JsonLit::Null => seq!['z'],
        JsonLit::Bool(b) => key_bool(b),
        JsonLit::Int(i) => seq!['i'] + key_int(i as int),
        JsonLit::Float(s) => seq!['d'] + key_str(s@),
        JsonLit::Str(s) => seq!['q'] + key_str(s@),
        JsonLit::Raw(s) => seq!['w'] + key_str(s@),
    }
}

pub open spec fn key_lits(ls: Seq<JsonLit>) -> Seq<char>
    decreases ls,
{
    if ls.len() == 0 {
        Seq::empty()
    } else {
        key_lit(ls[0]) + seq![','] + key_lits(ls.drop_first())
    }
}

pub open spec fn key_strs(ss: Seq<String>) -> Seq<char>
    decreases ss,
{
    if ss.len() == 0 {
        Seq::empty()
    } else {
        key_str(ss[0]@) + seq![','] + key_strs(ss.drop_first())
    }
}

/// The canonical encoding of a whole schema.
pub open spec fn key_schema(s: Schema) -> Seq<char>
    decreases s,
{
    seq!['{'] + key_opt_str(s.title) + key_opt_str(s.description) + key_opt_bool(s.deprecated)
        + key_typeset(s.schema_type) + key_opt_str(s.format) + seq!['[']
        + key_lits(s.enum_values@) + seq![']', '{'] + key_props(s.properties@) + seq!['}', '[']
        + key_strs(s.required@) + seq![']'] + key_opt_bos(
        s.additional_properties,
    ) + key_opt_bos(s.items) + seq!['}']
}

pub open spec fn key_props(ps: Seq<(String, SchemaOrRef)>) -> Seq<char>
    decreases ps,
{
    if ps.len() == 0 {
        Seq::empty()
    } else {
        key_str(ps[0].0@) + key_sor(ps[0].1) + seq![','] + key_props(ps.drop_first())
    }
}

pub open spec fn key_sor(s: SchemaOrRef) -> Seq<char>
    decreases s,
{
    match s {
        SchemaOrRef::Reference(p) => seq!['R'] + key_str(p@),
        SchemaOrRef::Inline(schema) => seq!['S'] + key_schema(schema),
    }
}

pub open spec fn key_opt_bos(b: Option<BoolOrSchema>) -> Seq<char>
    decreases b,
{
    match b {
        Option::None => seq!['n'],
        Option::Some(BoolOrSchema::Boolean(bo)) => seq!['B'] + key_bool(bo),
        Option::Some(BoolOrSchema::Node(n)) => seq!['N'] + key_sor(*n),
    }
}

fn push_key_str(out: &mut String, s: &String)
    ensures
        final(out)@ == old(out)@ + key_str(s@),
{
    let len = s.as_str().unicode_len();
    push_dec(out, len as u128);
    push_char(out, ':');
    out.append(s.as_str());
    proof {
        assert(out@ =~= old(out)@ + key_str(s@));
    }
}

fn push_key_opt_str(out: &mut String, o: &Option<String>)
    ensures
        final(out)@ == old(out)@ + key_opt_str(*o),
{
    match o {
        None => {
            push_char(out, 'n');
            proof {
                assert(out@ =~= old(out)@ + key_opt_str(*o));
            }
        },
        Some(s) => {
            push_char(out, 's');
            push_key_str(out, s);
            proof {
                assert(out@ =~= old(out)@ + key_opt_str(*o));
            }
        },
    }
}

fn push_key_bool(out: &mut String, b: bool)
    ensures
        final(out)@ == old(out)@ + key_bool(b),
{
    if b {
        push_char(out, 't');
    } else {
        push_char(out, 'f');
    }
    proof {
        assert(out@ =~= old(out)@ + key_bool(b));
    }
}

fn push_key_opt_bool(out: &mut String, o: &Option<bool>)
    ensures
        final(out)@ == old(out)@ + key_opt_bool(*o),
{
    match o {
        None => {
            push_char(out, 'n');
            proof {
                assert(out@ =~= old(out)@ + key_opt_bool(*o));
            }
        },
        Some(b) => {
            push_key_bool(out, *b);
        },
    }
}

fn push_key_type(out: &mut String, t: &SchemaType)
    ensures
        final(out)@ == old(out)@.push(key_type(*t)),
{
    let c = match t {
        SchemaType::Object => 'o',
        SchemaType::String => 's',
        SchemaType::Integer => 'i',
        SchemaType::Number => 'u',
        SchemaType::Boolean => 'b',
        SchemaType::Array => 'a',
        SchemaType::Null => 'z',
    };
    push_char(out, c);
}

#[verifier::loop_isolation(false)]
fn push_key_typeset(out: &mut String, o: &Option<TypeSet>)
    ensures
        final(out)@ == old(out)@ + key_typeset(*o),
{
    match o {
        None => {
            push_char(out, 'n');
            proof {
                assert(out@ =~= old(out)@ + key_typeset(*o));
            }
        },
        Some(TypeSet::One(t)) => {
            push_char(out, '1');
            push_key_type(out, t);
            proof {
                assert(out@ =~= old(out)@ + key_typeset(*o));
            }
        },
        Some(TypeSet::Many(ts)) => {
            push_char(out, 'm');
            push_char(out, '[');
            let ghost base = out@;
            let n = ts.len();
            let mut i: usize = 0;
            proof {
                assert(ts@.skip(0) =~= ts@);
            }
            while i < n
                invariant
                    i <= n,
                    out@ + key_types(ts@.skip(i as int)) == base + key_types(ts@),
                decreases n - i,
            {
                proof {
                    assert(ts@.skip(i as int)[0] == ts@[i as int]);
                    assert(ts@.skip(i as int).drop_first() =~= ts@.skip(i as int + 1));
                }
                let ghost before = out@;
                push_key_type(out, &ts[i]);
                proof {
                    assert(out@ + key_types(ts@.skip(i as int + 1)) =~= before + key_types(
                        ts@.skip(i as int),
                    ));
                }
                i = i + 1;
            }
            proof {
                assert(key_types(ts@.skip(n as int)) =~= Seq::<char>::empty());
                assert(out@ =~= out@ + key_types(ts@.skip(n as int)));
            }
            push_char(out, ']');
            proof {
                assert(out@ =~= old(out)@ + key_typeset(*o));
            }
        },
    }
}

fn push_key_int(out: &mut String, i: i64)
    ensures
        final(out)@ == old(out)@ + key_int(i as int),
{
    if i < 0 {
        push_char(out, '-');
        let magnitude: u64 = ((-(i + 1)) as u64) + 1;
        proof {
            assert(magnitude == (-(i as int)) as nat);
        }
        push_dec(out, magnitude as u128);
        proof {
            assert(out@ =~= old(out)@ + key_int(i as int));
        }
    } else {
        push_dec(out, i as u128);
        proof {
            assert(out@ =~= old(out)@ + key_int(i as int));
        }
    }
}

fn push_key_lit(out: &mut String, l: &JsonLit)
    ensures
        final(out)@ == old(out)@ + key_lit(*l),
{
    match l {
        JsonLit::Null => {
            push_char(out, 'z');
        },
        JsonLit::Bool(b) => {
            push_key_bool(out, *b);
        },
        JsonLit::Int(i) => {
            push_char(out, 'i');
            push_key_int(out, *i);
        },
        JsonLit::Float(s) => {
            push_char(out, 'd');
            push_key_str(out, s);
        },
        JsonLit::Str(s) => {
            push_char(out, 'q');
            push_key_str(out, s);
        },
        JsonLit::Raw(s) => {
            push_char(out, 'w');
            push_key_str(out, s);
        },
    }
    proof {
        assert(out@ =~= old(out)@ + key_lit(*l));
    }
}

#[verifier::loop_isolation(false)]
fn push_key_lits(out: &mut String, ls: &Vec<JsonLit>)
    ensures
        final(out)@ == old(out)@ + key_lits(ls@),
{
    let n = ls.len();
    let mut i: usize = 0;
    proof {
        assert(ls@.skip(0) =~= ls@);
    }
    while i < n
        invariant
            i <= n,
            out@ + key_lits(ls@.skip(i as int)) == old(out)@ + key_lits(ls@),
        decreases n - i,
    {
        proof {
            assert(ls@.skip(i as int)[0] == ls@[i as int]);
            assert(ls@.skip(i as int).drop_first() =~= ls@.skip(i as int + 1));
        }
        let ghost before = out@;
        push_key_lit(out, &ls[i]);
        push_char(out, ',');
        proof {
            assert(out@ + key_lits(ls@.skip(i as int + 1)) =~= before + key_lits(
                ls@.skip(i as int),
            ));
        }
        i = i + 1;
    }
    proof {
        assert(key_lits(ls@.skip(n as int)) =~= Seq::<char>::empty());
        assert(out@ =~= out@ + key_lits(ls@.skip(n as int)));
    }
}

#[verifier::loop_isolation(false)]
fn push_key_strs(out: &mut String, ss: &Vec<String>)
    ensures
        final(out)@ == old(out)@ + key_strs(ss@),
{
    let n = ss.len();
    let mut i: usize = 0;
    proof {
        assert(ss@.skip(0) =~= ss@);
    }
    while i < n
        invariant
            i <= n,
            out@ + key_strs(ss@.skip(i as int)) == old(out)@ + key_strs(ss@),
        decreases n - i,
    {
        proof {
            assert(ss@.skip(i as int)[0] == ss@[i as int]);
            assert(ss@.skip(i as int).drop_first() =~= ss@.skip(i as int + 1));
        }
        let ghost before = out@;
        push_key_str(out, &ss[i]);
        push_char(out, ',');
        proof {
            assert(out@ + key_strs(ss@.skip(i as int + 1)) =~= before + key_strs(
                ss@.skip(i as int),
            ));
        }
        i = i + 1;
    }
    proof {
        assert(key_strs(ss@.skip(n as int)) =~= Seq::<char>::empty());
        assert(out@ =~= out@ + key_strs(ss@.skip(n as int)));
    }
}

#[verifier::loop_isolation(false)]
fn push_key_props(out: &mut String, ps: &Vec<(String, SchemaOrRef)>)
    ensures
        final(out)@ == old(out)@ + key_props(ps@),
    decreases ps@,
{
    let n = ps.len();
    let mut i: usize = 0;
    proof {
        assert(ps@.skip(0) =~= ps@);
    }
    while i < n
        invariant
            i <= n,
            out@ + key_props(ps@.skip(i as int)) == old(out)@ + key_props(ps@),
        decreases n - i,
    {
        proof {
            assert(ps@.skip(i as int)[0] == ps@[i as int]);
            assert(ps@.skip(i as int).drop_first() =~= ps@.skip(i as int + 1));
        }
        let ghost before = out@;
        push_key_str(out, &ps[i].0);
        push_key_sor(out, &ps[i].1);
        push_char(out, ',');
        proof {
            assert(out@ + key_props(ps@.skip(i as int + 1)) =~= before + key_props(
                ps@.skip(i as int),
            ));
        }
        i = i + 1;
    }
    proof {
        assert(key_props(ps@.skip(n as int)) =~= Seq::<char>::empty());
        assert(out@ =~= out@ + key_props(ps@.skip(n as int)));
    }
}

#[verifier::rlimit(100)]
pub fn push_key_schema(out: &mut String, s: &Schema)
    ensures
        final(out)@ == old(out)@ + key_schema(*s),
    decreases *s,
{
    push_char(out, '{');
    push_key_opt_str(out, &s.title);
    proof {
        assert(out@ =~= old(out)@ + (seq!['{'] + key_opt_str(s.title)));
    }
    let ghost q2 = seq!['{'] + key_opt_str(s.title);
    push_key_opt_str(out, &s.description);
    proof {
        assert(out@ =~= old(out)@ + (q2 + key_opt_str(s.description)));
    }
    let ghost q3 = q2 + key_opt_str(s.description);
    push_key_opt_bool(out, &s.deprecated);
    proof {
        assert(out@ =~= old(out)@ + (q3 + key_opt_bool(s.deprecated)));
    }
    let ghost q5 = q3 + key_opt_bool(s.deprecated);
    push_key_typeset(out, &s.schema_type);
    proof {
        assert(out@ =~= old(out)@ + (q5 + key_typeset(s.schema_type)));
    }
    let ghost q6 = q5 + key_typeset(s.schema_type);
    push_key_opt_str(out, &s.format);
    proof {
        assert(out@ =~= old(out)@ + (q6 + key_opt_str(s.format)));
    }
    let ghost q7 = q6 + key_opt_str(s.format);
    push_char(out, '[');
    push_key_lits(out, &s.enum_values);
    proof {
        assert(out@ =~= old(out)@ + (q7 + seq!['['] + key_lits(s.enum_values@)));
    }
    let ghost q9 = q7 + seq!['['] + key_lits(s.enum_values@);
    push_char(out, ']');
    push_char(out, '{');
    push_key_props(out, &s.properties);
    proof {
        assert(out@ =~= old(out)@ + (q9 + seq![']', '{'] + key_props(s.properties@)));
    }
    let ghost q11 = q9 + seq![']', '{'] + key_props(s.properties@);
    push_char(out, '}');
    push_char(out, '[');
    push_key_strs(out, &s.required);
    proof {
        assert(out@ =~= old(out)@ + (q11 + seq!['}', '['] + key_strs(s.required@)));
    }
    let ghost q13 = q11 + seq!['}', '['] + key_strs(s.required@);
    push_char(out, ']');
    push_key_opt_bos(out, &s.additional_properties);
    proof {
        assert(out@ =~= old(out)@ + (q13 + seq![']'] + key_opt_bos(s.additional_properties)));
    }
    let ghost q15 = q13 + seq![']'] + key_opt_bos(s.additional_properties);
    push_key_opt_bos(out, &s.items);
    push_char(out, '}');
    proof {
        assert(out@ =~= old(out)@ + (q15 + key_opt_bos(s.items) + seq!['}']));
        assert(q15 + key_opt_bos(s.items) + seq!['}'] == key_schema(*s));
    }
}

pub fn push_key_sor(out: &mut String, s: &SchemaOrRef)
    ensures
        final(out)@ == old(out)@ + key_sor(*s),
    decreases *s,
{
    match s {
        SchemaOrRef::Reference(p) => {
            push_char(out, 'R');
            push_key_str(out, p);
        },
        SchemaOrRef::Inline(schema) => {
            push_char(out, 'S');
            push_key_schema(out, schema);
        },
    }
    proof {
        assert(out@ =~= old(out)@ + key_sor(*s));
    }
}

pub fn push_key_opt_bos(out: &mut String, b: &Option<BoolOrSchema>)
    ensures
        final(out)@ == old(out)@ + key_opt_bos(*b),
    decreases *b,
{
    match b {
        None => {
            push_char(out, 'n');
        },
        Some(BoolOrSchema::Boolean(bo)) => {
            push_char(out, 'B');
            push_key_bool(out, *bo);
        },
        Some(BoolOrSchema::Node(node)) => {
            push_char(out, 'N');
            push_key_sor(out, node);
        },
    }
    proof {
        assert(out@ =~= old(out)@ + key_opt_bos(*b));
    }
}

/// The structural key of a schema, as a fresh string.
pub fn schema_key(s: &Schema) -> (r: String)
    ensures
        r@ == key_schema(*s),
{
    let mut out = String::new();
    push_key_schema(&mut out, s);
    proof {
        assert(out@ =~= key_schema(*s));
    }
    out
}

} // verus!
