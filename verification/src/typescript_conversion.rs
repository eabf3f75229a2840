//! The declaration emitter: walks a schema type and renders it as TypeScript.
//!
//! A primitive, a union and a map are rendered in place, as a type
//! expression. A record and an enumeration are rendered as a declaration,
//! which is added to the declarations gathered so far, and are referred to by
//! name.

use vstd::prelude::*;
use crate::json::depth;
use crate::model::{
    fields_view, lemma_types_view, type_of, types_view, Enum, EnumModel, FieldModel, MapModel,
    MapOf, Record, Type, TypeModel,
};
use crate::rank::{
    fields_depth, lemma_field_depth, lemma_type_rank, lemma_types_rank, rank, types_rank,
};
use crate::text::{concat, join, join_strings, texts};

verus! {

/// The declarations gathered by a walk, as rendered text: interfaces and
/// enumerations, each in the order in which they were met.
#[derive(Debug)]
pub struct TypeScriptDecls {
    pub interfaces: Vec<String>,
    pub enumerations: Vec<String>,
}

/// The mathematical value of [`TypeScriptDecls`].
pub struct DeclsModel {
    pub interfaces: Seq<Seq<char>>,
    pub enumerations: Seq<Seq<char>>,
}

impl View for TypeScriptDecls {
    type V = DeclsModel;

    open spec fn view(&self) -> DeclsModel {
        DeclsModel {
            interfaces: texts(self.interfaces@),
            enumerations: texts(self.enumerations@),
        }
    }
}

/// What the walk of one type yields: the expression that refers to the type,
/// and the declarations that the walk has met, in order.
pub struct Emitted {
    pub token: Seq<char>,
    pub interfaces: Seq<Seq<char>>,
    pub enumerations: Seq<Seq<char>>,
}

/// What the walk of several types yields: one part of text for each type that
/// was walked, and the declarations that the walk has met, in order.
pub struct Walk {
    pub parts: Seq<Seq<char>>,
    pub interfaces: Seq<Seq<char>>,
    pub enumerations: Seq<Seq<char>>,
}

/// The expression for a primitive type. The four numeric types share one.
pub open spec fn primitive_token(t: TypeModel) -> Seq<char> {
    match t {
        TypeModel::Boolean => "boolean"@,
        TypeModel::Bytes => "UInt8Array"@,
        TypeModel::Double | TypeModel::Float | TypeModel::Int | TypeModel::Long => "number"@,
        TypeModel::Null => "null"@,
        TypeModel::String => "string"@,
        _ => Seq::empty(),
    }
}

/// The line that assigns a symbol of an enumeration its own text.
pub open spec fn symbol_line(symbol: Seq<char>) -> Seq<char> {
    "\t"@ + symbol + " = \""@ + symbol + "\""@
}

/// The lines of the symbols of an enumeration, in order.
pub open spec fn symbol_lines(symbols: Seq<Seq<char>>) -> Seq<Seq<char>> {
    Seq::new(symbols.len(), |i: int| symbol_line(symbols[i]))
}

/// The declaration of an enumeration.
pub open spec fn enum_text(e: EnumModel) -> Seq<char> {
    "export enum "@ + e.name + "{ \n"@ + join(symbol_lines(e.symbols), ",\n"@) + " \n}"@
}

/// The line of a field of the type that `token` refers to.
pub open spec fn field_line(name: Seq<char>, token: Seq<char>) -> Seq<char> {
    "\t"@ + name + ": "@ + token + ";\n"@
}

/// The declaration of an interface with the field lines `body`.
pub open spec fn interface_text(name: Seq<char>, body: Seq<char>) -> Seq<char> {
    "export interface "@ + name + " { \n"@ + body + " \n}"@
}

/// The expression for a map from strings to the type that `token` refers to.
pub open spec fn map_token(token: Seq<char>) -> Seq<char> {
    "{ [index:string]: "@ + token + " }"@
}

/// The type of the values of a map: what its descriptor denotes, and `null`
/// where it denotes nothing.
pub open spec fn values_type(map: MapModel) -> TypeModel {
    match type_of(map.values) {
        Ok(t) => t,
        Err(_) => TypeModel::Null,
    }
}

/// What the walk of `t` yields; `None` where the walk meets an array or a
/// fixed type, for which no rendering is defined.
///
/// A record yields its name, and after the declarations met in its fields the
/// interface made of the lines of its fields. An enumeration yields its name
/// and its declaration. A union yields the expressions of its alternatives
/// with ` | ` between them, a map an index signature over the expression of
/// its values; both pass on the declarations met on the way.
pub open spec fn emitted(t: TypeModel) -> Option<Emitted>
    decreases rank(t), 0nat,
{
    match t {
        TypeModel::Record(record) => match fields_emitted(record.fields, record.fields.len()) {
            Some(walk) => Some(
                Emitted {
                    token: record.name,
                    interfaces: walk.interfaces.push(
                        interface_text(record.name, concat(walk.parts)),
                    ),
                    enumerations: walk.enumerations,
                },
            ),
            None => None,
        },
        TypeModel::Enum(e) => Some(
            Emitted {
                token: e.name,
                interfaces: Seq::empty(),
                enumerations: seq![enum_text(e)],
            },
        ),
        TypeModel::Union(alternatives) => match alternatives_emitted(
            alternatives,
            alternatives.len(),
        ) {
            Some(walk) => Some(
                Emitted {
                    token: join(walk.parts, " | "@),
                    interfaces: walk.interfaces,
                    enumerations: walk.enumerations,
                },
            ),
            None => None,
        },
        TypeModel::MapOf(map) => {
            proof {
                lemma_type_rank(map.values);
            }
            match emitted(values_type(map)) {
                Some(inner) => Some(
                    Emitted {
                        token: map_token(inner.token),
                        interfaces: inner.interfaces,
                        enumerations: inner.enumerations,
                    },
                ),
                None => None,
            }
        },
        TypeModel::Array(_) => None,
        TypeModel::Fixed(_) => None,
        _ => Some(
            Emitted {
                token: primitive_token(t),
                interfaces: Seq::empty(),
                enumerations: Seq::empty(),
            },
        ),
    }
}

/// What the walk of the first `n` of `fields` yields: for each field whose
/// descriptor denotes a type, in order, its line and the declarations met in
/// that type. A field whose descriptor denotes no type is passed over.
pub open spec fn fields_emitted(fields: Seq<FieldModel>, n: nat) -> Option<Walk>
    decreases fields_depth(fields), n,
{
    if n == 0 || n > fields.len() {
        Some(Walk { parts: Seq::empty(), interfaces: Seq::empty(), enumerations: Seq::empty() })
    } else {
        let field = fields[n - 1];
        match fields_emitted(fields, (n - 1) as nat) {
            None => None,
            Some(before) => match type_of(field.descriptor) {
                Err(_) => Some(before),
                Ok(t) => {
                    proof {
                        lemma_type_rank(field.descriptor);
                        lemma_field_depth(fields, n - 1);
                    }
                    match emitted(t) {
                        None => None,
                        Some(inner) => Some(
                            Walk {
                                parts: before.parts.push(field_line(field.name, inner.token)),
                                interfaces: before.interfaces + inner.interfaces,
                                enumerations: before.enumerations + inner.enumerations,
                            },
                        ),
                    }
                },
            },
        }
    }
}

/// What the walk of the first `n` of the alternatives of a union yields: the
/// expression of each, in order, and the declarations met in them.
pub open spec fn alternatives_emitted(alternatives: Seq<TypeModel>, n: nat) -> Option<Walk>
    decreases types_rank(alternatives), n,
{
    if n == 0 || n > alternatives.len() {
        Some(Walk { parts: Seq::empty(), interfaces: Seq::empty(), enumerations: Seq::empty() })
    } else {
        match alternatives_emitted(alternatives, (n - 1) as nat) {
            None => None,
            Some(before) => {
                proof {
                    lemma_types_rank(alternatives, n - 1);
                }
                match emitted(alternatives[n - 1]) {
                    None => None,
                    Some(inner) => Some(
                        Walk {
                            parts: before.parts.push(inner.token),
                            interfaces: before.interfaces + inner.interfaces,
                            enumerations: before.enumerations + inner.enumerations,
                        },
                    ),
                }
            },
        }
    }
}

/// The line that assigns `symbol` its own text.
fn render_symbol(symbol: &str) -> (r: String)
    ensures
        r@ == symbol_line(symbol@),
{
    let mut line = String::from_str("\t");
    line.append(symbol);
    line.append(" = \"");
    line.append(symbol);
    line.append("\"");
    line
}

/// The declaration of an enumeration: one line for each symbol, in order.
pub fn convert_enum(v: Enum) -> (r: String)
    ensures
        r@ == enum_text(v@),
{
    let Enum { name, symbols, .. } = v;
    let mut lines: Vec<String> = Vec::new();
    let mut i: usize = 0;
    while i < symbols.len()
        invariant
            i <= symbols.len(),
            lines.len() == i,
            forall|k: int| 0 <= k < i ==> lines[k]@ == symbol_line(symbols[k]@),
        decreases symbols.len() - i,
    {
        lines.push(render_symbol(symbols[i].as_str()));
        i += 1;
    }
    assert(texts(lines@) =~= symbol_lines(texts(symbols@)));
    let body = join_strings(&lines, ",\n");
    let mut text = String::from_str("export enum ");
    text.append(name.as_str());
    text.append("{ \n");
    text.append(body.as_str());
    text.append(" \n}");
    text
}

/// A walk of fields that yields something has yielded something at each
/// field before.
pub proof fn lemma_fields_emitted_before(fields: Seq<FieldModel>, n: nat, m: nat)
    requires
        n <= m <= fields.len(),
        fields_emitted(fields, m) is Some,
    ensures
        fields_emitted(fields, n) is Some,
    decreases m,
{
    if n < m {
        lemma_fields_emitted_before(fields, n, (m - 1) as nat);
    }
}

/// A walk of alternatives that yields something has yielded something at
/// each alternative before.
pub proof fn lemma_alternatives_emitted_before(alternatives: Seq<TypeModel>, n: nat, m: nat)
    requires
        n <= m <= alternatives.len(),
        alternatives_emitted(alternatives, m) is Some,
    ensures
        alternatives_emitted(alternatives, n) is Some,
    decreases m,
{
    if n < m {
        lemma_alternatives_emitted_before(alternatives, n, (m - 1) as nat);
    }
}

/// Whether `schema` can be walked: whether the walk meets no array and no
/// fixed type.
pub fn is_emittable(schema: &Type) -> (r: bool)
    ensures
        r == (emitted(schema@) is Some),
    decreases rank(schema@), 0nat,
{
    broadcast use lemma_types_view;

    match schema {
        Type::Record(record) => {
            let ghost all = record@.fields;
            let mut i: usize = 0;
            while i < record.fields.len()
                invariant
                    i <= record.fields.len(),
                    all == fields_view(record.fields@),
                    schema@ == TypeModel::Record(record@),
                    fields_emitted(all, i as nat) is Some,
                decreases record.fields.len() - i,
            {
                match Type::try_from(&record.fields[i].descriptor) {
                    Ok(t) => {
                        proof {
                            lemma_type_rank(all[i as int].descriptor);
                            lemma_field_depth(all, i as int);
                        }
                        if !is_emittable(&t) {
                            proof {
                                if fields_emitted(all, all.len()) is Some {
                                    lemma_fields_emitted_before(all, (i + 1) as nat, all.len());
                                }
                            }
                            return false;
                        }
                    },
                    Err(_) => {},
                }
                i += 1;
            }
            true
        },
        Type::Union(alternatives) => {
            let ghost all = types_view(alternatives@);
            let mut i: usize = 0;
            while i < alternatives.len()
                invariant
                    i <= alternatives.len(),
                    all == types_view(alternatives@),
                    schema@ == TypeModel::Union(all),
                    alternatives_emitted(all, i as nat) is Some,
                decreases alternatives.len() - i,
            {
                broadcast use lemma_types_view;

                proof {
                    lemma_types_rank(all, i as int);
                }
                if !is_emittable(&alternatives[i]) {
                    proof {
                        if alternatives_emitted(all, all.len()) is Some {
                            lemma_alternatives_emitted_before(all, (i + 1) as nat, all.len());
                        }
                    }
                    return false;
                }
                i += 1;
            }
            true
        },
        Type::MapOf(map) => {
            let value_type = match Type::try_from(&map.values) {
                Ok(t) => t,
                Err(_) => Type::Null,
            };
            proof {
                lemma_type_rank(map@.values);
            }
            is_emittable(&value_type)
        },
        Type::Array(_) => false,
        Type::Fixed(_) => false,
        _ => true,
    }
}

/// The expression that refers to `schema`. The declarations met on the way
/// are added to `decls`, in the order in which the walk completes them.
pub fn convert_schema_to_typescript(schema: Type, decls: &mut TypeScriptDecls) -> (r: String)
    requires
        emitted(schema@) is Some,
    ensures
        r@ == emitted(schema@)->Some_0.token,
        final(decls)@.interfaces == old(decls)@.interfaces + emitted(schema@)->Some_0.interfaces,
        final(decls)@.enumerations == old(decls)@.enumerations + emitted(
            schema@,
        )->Some_0.enumerations,
    decreases rank(schema@), 0nat,
{
    broadcast use lemma_types_view;

    match schema {
        Type::Record(record) => {
            let return_name = record.name.clone();
            let text = convert_record(*record, decls);
            let ghost inner = decls@;
            decls.interfaces.push(text);
            assert(decls@.interfaces =~= inner.interfaces.push(text@));
            return_name
        },
        Type::Enum(e) => {
            let return_name = e.name.clone();
            let text = convert_enum(e);
            decls.enumerations.push(text);
            return_name
        },
        Type::Boolean => String::from_str("boolean"),
        Type::Bytes => String::from_str("UInt8Array"),
        Type::Double | Type::Float | Type::Int | Type::Long => String::from_str("number"),
        Type::Null => String::from_str("null"),
        Type::String => String::from_str("string"),
        Type::Union(union) => convert_union(union, decls),
        Type::MapOf(m) => convert_map(*m, decls),
        Type::Array(_) => unreached(),
        Type::Fixed(_) => unreached(),
    }
}

/// The declaration of the interface of a record: one line for each field
/// whose descriptor denotes a type, in order. The declarations met in the
/// fields are added to `decls`.
pub fn convert_record(v: Record, decls: &mut TypeScriptDecls) -> (r: String)
    requires
        fields_emitted(v@.fields, v@.fields.len()) is Some,
    ensures
        r@ == interface_text(
            v@.name,
            concat(fields_emitted(v@.fields, v@.fields.len())->Some_0.parts),
        ),
        final(decls)@.interfaces == old(decls)@.interfaces + fields_emitted(
            v@.fields,
            v@.fields.len(),
        )->Some_0.interfaces,
        final(decls)@.enumerations == old(decls)@.enumerations + fields_emitted(
            v@.fields,
            v@.fields.len(),
        )->Some_0.enumerations,
    decreases fields_depth(v@.fields), 1nat,
{
    let ghost all = v@.fields;
    let ghost start = decls@;
    let Record { name, fields, .. } = v;
    let mut body = String::new();
    let mut i: usize = 0;
    while i < fields.len()
        invariant
            i <= fields.len(),
            all == fields_view(fields@),
            all == v@.fields,
            fields_emitted(all, all.len()) is Some,
            fields_emitted(all, i as nat) matches Some(walk) && body@ == concat(walk.parts)
                && decls@.interfaces == start.interfaces + walk.interfaces && decls@.enumerations
                == start.enumerations + walk.enumerations,
        decreases fields.len() - i,
    {
        let ghost walk = fields_emitted(all, i as nat)->Some_0;
        match Type::try_from(&fields[i].descriptor) {
            Ok(t) => {
                proof {
                    lemma_type_rank(all[i as int].descriptor);
                    lemma_field_depth(all, i as int);
                    lemma_fields_emitted_before(all, (i + 1) as nat, all.len());
                }
                let typename = convert_schema_to_typescript(t, decls);
                body.append("\t");
                body.append(fields[i].name.as_str());
                body.append(": ");
                body.append(typename.as_str());
                body.append(";\n");
                assert(fields_emitted(all, (i + 1) as nat)->Some_0.parts.drop_last()
                    == walk.parts);
            },
            Err(_) => {},
        }
        i += 1;
    }
    let mut text = String::from_str("export interface ");
    text.append(name.as_str());
    text.append(" { \n");
    text.append(body.as_str());
    text.append(" \n}");
    text
}

/// The expression for a union: the expressions of its alternatives, in
/// order, with ` | ` between them. The declarations met in the alternatives
/// are added to `decls`.
pub fn convert_union(u: Vec<Type>, decls: &mut TypeScriptDecls) -> (r: String)
    requires
        alternatives_emitted(types_view(u@), u.len() as nat) is Some,
    ensures
        r@ == join(alternatives_emitted(types_view(u@), u.len() as nat)->Some_0.parts, " | "@),
        final(decls)@.interfaces == old(decls)@.interfaces + alternatives_emitted(
            types_view(u@),
            u.len() as nat,
        )->Some_0.interfaces,
        final(decls)@.enumerations == old(decls)@.enumerations + alternatives_emitted(
            types_view(u@),
            u.len() as nat,
        )->Some_0.enumerations,
    decreases types_rank(types_view(u@)), 1nat,
{
    broadcast use lemma_types_view;

    let ghost all = types_view(u@);
    let ghost start = decls@;
    let mut v: Vec<String> = Vec::new();
    for t in it: u
        invariant
            all == types_view(u@),
            all.len() == u.len(),
            it.seq() == u@,
            alternatives_emitted(all, all.len()) is Some,
            alternatives_emitted(all, it.index() as nat) matches Some(walk) && texts(v@)
                == walk.parts && decls@.interfaces == start.interfaces + walk.interfaces
                && decls@.enumerations == start.enumerations + walk.enumerations,
    {
        broadcast use lemma_types_view;

        proof {
            lemma_types_rank(all, it.index());
            lemma_alternatives_emitted_before(all, (it.index() + 1) as nat, all.len());
        }
        let name = convert_schema_to_typescript(t, decls);
        v.push(name);
    }
    join_strings(&v, " | ")
}

/// The expression for a map: an index signature from strings to the type of
/// the map's values. The declarations met in that type are added to `decls`.
pub fn convert_map(m: MapOf, decls: &mut TypeScriptDecls) -> (r: String)
    requires
        emitted(values_type(m@)) is Some,
    ensures
        r@ == map_token(emitted(values_type(m@))->Some_0.token),
        final(decls)@.interfaces == old(decls)@.interfaces + emitted(
            values_type(m@),
        )->Some_0.interfaces,
        final(decls)@.enumerations == old(decls)@.enumerations + emitted(
            values_type(m@),
        )->Some_0.enumerations,
    decreases depth(m@.values), 1nat,
{
    let value_type = match Type::try_from(&m.values) {
        Ok(t) => t,
        Err(_) => Type::Null,
    };
    proof {
        lemma_type_rank(m@.values);
    }
    let name = convert_schema_to_typescript(value_type, decls);
    let mut text = String::from_str("{ [index:string]: ");
    text.append(name.as_str());
    text.append(" }");
    text
}

} // verus!
