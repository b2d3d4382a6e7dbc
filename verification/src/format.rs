//! The value formatter: a stable textual form for every value.
//!
//! [`format_spec`] says what the text of a value is; [`format`] computes it.
//! The text depends on the value and on the descriptors alone.

use crate::bytes::{
    is_negative, le_value, lemma_le_value_bound, lemma_pow256_16, lemma_pow256_monotonic, pow256,
    read_le,
};
use crate::types::{Field, ScalarKind, Shape, TypeId, TypeModel, TypeTable};
use crate::value::{lemma_aggregate_view, lemma_enum_view, views, Value, ValueModel};
use vstd::prelude::*;
use vstd::string::StringExecFns;

verus! {

/// The character for one digit, up to base sixteen.
pub open spec fn digit_text(d: int) -> Seq<char> {
    if d == 0 {
        "0"@
    } else if d == 1 {
        "1"@
    } else if d == 2 {
        "2"@
    } else if d == 3 {
        "3"@
    } else if d == 4 {
        "4"@
    } else if d == 5 {
        "5"@
    } else if d == 6 {
        "6"@
    } else if d == 7 {
        "7"@
    } else if d == 8 {
        "8"@
    } else if d == 9 {
        "9"@
    } else if d == 10 {
        "a"@
    } else if d == 11 {
        "b"@
    } else if d == 12 {
        "c"@
    } else if d == 13 {
        "d"@
    } else if d == 14 {
        "e"@
    } else {
        "f"@
    }
}

/// The decimal digits of `n`, most significant first, without leading zeros;
/// zero is one digit.
pub open spec fn decimal_text(n: nat) -> Seq<char>
    decreases n,
{
    if n < 10 {
        digit_text(n as int)
    } else {
        decimal_text(n / 10) + digit_text((n % 10) as int)
    }
}

/// The hexadecimal digits of `n`, most significant first, without leading
/// zeros; zero is one digit.
pub open spec fn hex_text(n: nat) -> Seq<char>
    decreases n,
{
    if n < 16 {
        digit_text(n as int)
    } else {
        hex_text(n / 16) + digit_text((n % 16) as int)
    }
}

/// The two hexadecimal digits of each byte, in order.
pub open spec fn bytes_text(bytes: Seq<u8>, n: nat) -> Seq<char>
    decreases n,
{
    if n == 0 || n > bytes.len() {
        Seq::empty()
    } else {
        bytes_text(bytes, (n - 1) as nat) + digit_text(bytes[n - 1] as int / 16) + digit_text(
            bytes[n - 1] as int % 16,
        )
    }
}

/// The text of a primitive: a number in decimal, with a sign where the kind
/// has one; `true` or `false`; a character as the escape of its code point; a
/// float as its bit pattern; `()`.
pub open spec fn scalar_text(kind: ScalarKind, bytes: Seq<u8>) -> Seq<char> {
    match kind {
        ScalarKind::Unit => "()"@,
        ScalarKind::Bool => if le_value(bytes) != 0 {
            "true"@
        } else {
            "false"@
        },
        ScalarKind::Char => "'\\u{"@ + hex_text(le_value(bytes)) + "}'"@,
        ScalarKind::Unsigned => decimal_text(le_value(bytes)),
        ScalarKind::Signed => if is_negative(bytes) {
            "-"@ + decimal_text((pow256(bytes.len()) - le_value(bytes)) as nat)
        } else {
            decimal_text(le_value(bytes))
        },
        ScalarKind::Float => "<float 0x"@ + hex_text(le_value(bytes)) + ">"@,
    }
}

/// What precedes member `i` in a list of members: its declared name where the
/// members are named.
pub open spec fn label(declared: Option<Seq<Field>>, i: int) -> Seq<char> {
    match declared {
        Some(fields) => if 0 <= i < fields.len() {
            fields[i].name@ + ": "@
        } else {
            "?: "@
        },
        None => Seq::empty(),
    }
}

/// What stands between member `i` and the one before it.
pub open spec fn separator(i: int) -> Seq<char> {
    if i > 0 {
        ", "@
    } else {
        Seq::empty()
    }
}

/// The texts of the first `n` members, separated by commas.
pub open spec fn members_text(
    m: TypeModel,
    members: Seq<ValueModel>,
    declared: Option<Seq<Field>>,
    n: nat,
) -> Seq<char>
    decreases members, n,
{
    if n == 0 || n > members.len() {
        Seq::empty()
    } else {
        members_text(m, members, declared, (n - 1) as nat) + separator(n - 1) + label(
            declared,
            n - 1,
        ) + format_spec(m, members[n - 1])
    }
}

/// A name followed by its members: bare where there are none, `Name(a, b)`
/// where they are positional, `Name { x: a, y: b }` where they are named.
pub open spec fn constructor_text(
    m: TypeModel,
    name: Seq<char>,
    members: Seq<ValueModel>,
    declared: Option<Seq<Field>>,
) -> Seq<char>
    decreases members, members.len() + 1,
{
    if members.len() == 0 {
        name
    } else if declared is Some {
        name + " { "@ + members_text(m, members, declared, members.len()) + " }"@
    } else {
        name + "("@ + members_text(m, members, declared, members.len()) + ")"@
    }
}

/// The text of a value.
///
/// A struct is `Name { field: text, .. }`, a tuple struct `Name(text, ..)`,
/// each just `Name` where it has no members; an array is `[text, ..]`; an enum
/// value is its variant, written like a struct or tuple struct after the path
/// of the enum.  A reference is its address, a slice its length and address,
/// a function its entry address, all in hexadecimal; raw bytes are listed
/// after the name of their type, and so are the bytes of a primitive wider
/// than sixteen bytes.
pub open spec fn format_spec(m: TypeModel, v: ValueModel) -> Seq<char>
    decreases v,
{
    match v {
        ValueModel::Scalar { ty, kind, bytes } => if bytes.len() <= 16 {
            scalar_text(kind, bytes)
        } else {
            "0x"@ + bytes_text(bytes, bytes.len())
        },
        ValueModel::Aggregate { ty, address, fields } => if ty >= m.types.len() {
            "?"@
        } else {
            let d = m.types[ty as int];
            match d.shape {
                Shape::Array { elem, count } => "["@ + members_text(m, fields, None, fields.len())
                    + "]"@,
                Shape::TupleStruct { arity, fields: declared } => constructor_text(
                    m,
                    d.path@,
                    fields,
                    None,
                ),
                Shape::Struct { fields: declared } => constructor_text(
                    m,
                    d.path@,
                    fields,
                    Some(declared@),
                ),
                Shape::Closure { fields: declared } => constructor_text(
                    m,
                    d.path@,
                    fields,
                    Some(declared@),
                ),
                _ => "?"@,
            }
        },
        ValueModel::EnumValue { ty, variant, payload } => if ty < m.types.len()
            && m.types[ty as int].shape is Enum && variant
            < m.types[ty as int].shape->Enum_variants@.len() {
            let d = m.types[ty as int];
            let var = d.shape->Enum_variants@[variant as int];
            constructor_text(
                m,
                d.path@ + "::"@ + var.name@,
                payload,
                if var.tuple_like {
                    None
                } else {
                    Some(var.fields@)
                },
            )
        } else {
            "?"@
        },
        ValueModel::Raw { ty, address, bytes } => path_of(m, ty) + " {0x"@ + bytes_text(
            bytes,
            bytes.len(),
        ) + "}"@,
        ValueModel::Reference { ty, address, metadata } => "0x"@ + hex_text(address as nat),
        ValueModel::Slice { ty, elem, base, count } => "&["@ + decimal_text(count as nat)
            + " @ 0x"@ + hex_text(base as nat) + "]"@,
        ValueModel::Function { ty, symbol, receiver } => "fn@0x"@ + hex_text(symbol as nat),
    }
}

/// The recorded path of the type `ty`, or `?`.
pub open spec fn path_of(m: TypeModel, ty: TypeId) -> Seq<char> {
    if ty < m.types.len() {
        m.types[ty as int].path@
    } else {
        "?"@
    }
}

/// The bytes with every bit flipped.
pub open spec fn complement(s: Seq<u8>) -> Seq<u8> {
    Seq::new(s.len(), |i: int| (255 - s[i]) as u8)
}

/// A number and the number that its flipped bytes spell add up to one less
/// than the modulus.
pub proof fn lemma_complement(s: Seq<u8>)
    ensures
        le_value(s) + le_value(complement(s)) + 1 == pow256(s.len()),
    decreases s.len(),
{
    if s.len() > 0 {
        lemma_complement(s.drop_first());
        assert(complement(s).drop_first() =~= complement(s.drop_first()));
    }
}

fn digit_str(d: u8) -> (r: &'static str)
    requires
        d < 16,
    ensures
        r@ == digit_text(d as int),
{
    match d {
        0 => "0",
        1 => "1",
        2 => "2",
        3 => "3",
        4 => "4",
        5 => "5",
        6 => "6",
        7 => "7",
        8 => "8",
        9 => "9",
        10 => "a",
        11 => "b",
        12 => "c",
        13 => "d",
        14 => "e",
        _ => "f",
    }
}

fn write_decimal(n: u128, out: &mut String)
    ensures
        final(out)@ == old(out)@ + decimal_text(n as nat),
    decreases n,
{
    if n >= 10 {
        write_decimal(n / 10, out);
    }
    let d: u8 = (n % 10) as u8;
    out.append(digit_str(d));
    assert(out@ =~= old(out)@ + decimal_text(n as nat));
}

fn write_hex(n: u128, out: &mut String)
    ensures
        final(out)@ == old(out)@ + hex_text(n as nat),
    decreases n,
{
    if n >= 16 {
        write_hex(n / 16, out);
    }
    let d: u8 = (n % 16) as u8;
    out.append(digit_str(d));
    assert(out@ =~= old(out)@ + hex_text(n as nat));
}

fn write_bytes(bytes: &Vec<u8>, out: &mut String)
    ensures
        final(out)@ == old(out)@ + bytes_text(bytes@, bytes@.len()),
{
    let mut i: usize = 0;
    assert(out@ =~= old(out)@ + bytes_text(bytes@, 0));
    while i < bytes.len()
        invariant
            i <= bytes.len(),
            out@ == old(out)@ + bytes_text(bytes@, i as nat),
        decreases bytes.len() - i,
    {
        let b: u8 = bytes[i];
        out.append(digit_str(b / 16));
        out.append(digit_str(b % 16));
        i += 1;
        assert(out@ =~= old(out)@ + bytes_text(bytes@, i as nat));
    }
}

fn flipped(bytes: &Vec<u8>) -> (r: Vec<u8>)
    ensures
        r@ == complement(bytes@),
{
    let mut out: Vec<u8> = Vec::new();
    let mut i: usize = 0;
    while i < bytes.len()
        invariant
            i <= bytes.len(),
            out@.len() == i,
            forall|k: int| 0 <= k < i ==> out@[k] == (255 - bytes@[k]) as u8,
        decreases bytes.len() - i,
    {
        out.push(255 - bytes[i]);
        i += 1;
    }
    assert(out@ =~= complement(bytes@));
    out
}

fn number_of(bytes: &Vec<u8>) -> (r: u128)
    requires
        bytes@.len() <= 16,
    ensures
        r == le_value(bytes@),
{
    assert(bytes@.subrange(0, bytes@.len() as int) =~= bytes@);
    read_le(bytes.as_slice(), 0, bytes.len())
}

fn write_scalar(kind: ScalarKind, bytes: &Vec<u8>, out: &mut String)
    requires
        bytes@.len() <= 16,
    ensures
        final(out)@ == old(out)@ + scalar_text(kind, bytes@),
{
    match kind {
        ScalarKind::Unit => {
            out.append("()");
        },
        ScalarKind::Bool => {
            if number_of(bytes) != 0 {
                out.append("true");
            } else {
                out.append("false");
            }
        },
        ScalarKind::Char => {
            out.append("'\\u{");
            write_hex(number_of(bytes), out);
            out.append("}'");
            assert(out@ =~= old(out)@ + scalar_text(kind, bytes@));
        },
        ScalarKind::Unsigned => {
            write_decimal(number_of(bytes), out);
        },
        ScalarKind::Signed => {
            if bytes.len() > 0 && bytes[bytes.len() - 1] >= 128 {
                let other = flipped(bytes);
                proof {
                    lemma_complement(bytes@);
                    lemma_le_value_bound(other@);
                    lemma_le_value_bound(bytes@);
                    lemma_pow256_monotonic(bytes@.len(), 16);
                    lemma_pow256_16();
                    lemma_negative_is_large(bytes@);
                }
                let magnitude: u128 = number_of(&other) + 1;
                out.append("-");
                write_decimal(magnitude, out);
                assert(out@ =~= old(out)@ + scalar_text(kind, bytes@));
            } else {
                write_decimal(number_of(bytes), out);
            }
        },
        ScalarKind::Float => {
            out.append("<float 0x");
            write_hex(number_of(bytes), out);
            out.append(">");
            assert(out@ =~= old(out)@ + scalar_text(kind, bytes@));
        },
    }
}

/// Bytes whose last is at least 128 spell a number in the upper half of the
/// range, so that its distance to the modulus is smaller than the modulus.
pub proof fn lemma_negative_is_large(s: Seq<u8>)
    requires
        is_negative(s),
    ensures
        2 * le_value(s) >= pow256(s.len()),
    decreases s.len(),
{
    if s.len() == 1 {
        assert(le_value(s.drop_first()) == 0);
        assert(pow256(1) == 256) by {
            reveal_with_fuel(pow256, 2);
        }
    } else {
        assert(s.drop_first().last() == s.last());
        lemma_negative_is_large(s.drop_first());
    }
}

fn write_members(
    table: &TypeTable,
    members: &Vec<Value>,
    declared: Option<&Vec<Field>>,
    out: &mut String,
)
    ensures
        final(out)@ == old(out)@ + members_text(
            table@,
            views(members@),
            match declared {
                Some(d) => Some(d@),
                None => None,
            },
            members@.len(),
        ),
    decreases members, 0int,
{
    let ghost names: Option<Seq<Field>> = match declared {
        Some(d) => Some(d@),
        None => None,
    };
    let mut i: usize = 0;
    assert(out@ =~= old(out)@ + members_text(table@, views(members@), names, 0));
    while i < members.len()
        invariant
            i <= members.len(),
            names == match declared {
                Some(d) => Some(d@),
                None => None,
            },
            out@ == old(out)@ + members_text(table@, views(members@), names, i as nat),
        decreases members.len() - i,
    {
        if i > 0 {
            out.append(", ");
        }
        match declared {
            Some(d) => {
                if i < d.len() {
                    out.append(d[i].name.as_str());
                    out.append(": ");
                } else {
                    out.append("?: ");
                }
            },
            None => {},
        }
        write_value(table, &members[i], out);
        i += 1;
        assert(out@ =~= old(out)@ + members_text(table@, views(members@), names, i as nat)) by {
            assert(views(members@)[i - 1] == members@[i - 1]@);
        }
    }
}

fn write_constructor(
    table: &TypeTable,
    members: &Vec<Value>,
    declared: Option<&Vec<Field>>,
    out: &mut String,
    Ghost(name): Ghost<Seq<char>>,
    Ghost(before): Ghost<Seq<char>>,
)
    requires
        old(out)@ == before + name,
    ensures
        final(out)@ == before + constructor_text(
            table@,
            name,
            views(members@),
            match declared {
                Some(d) => Some(d@),
                None => None,
            },
        ),
    decreases members, 1int,
{
    if members.len() == 0 {
        return ;
    }
    match declared {
        Some(d) => {
            out.append(" { ");
            write_members(table, members, declared, out);
            out.append(" }");
        },
        None => {
            out.append("(");
            write_members(table, members, declared, out);
            out.append(")");
        },
    }
    assert(out@ =~= before + constructor_text(
        table@,
        name,
        views(members@),
        match declared {
            Some(d) => Some(d@),
            None => None,
        },
    ));
}

fn write_value(table: &TypeTable, v: &Value, out: &mut String)
    ensures
        final(out)@ == old(out)@ + format_spec(table@, v@),
    decreases v, 2int,
{
    match v {
        Value::Scalar { ty, kind, bytes } => {
            if bytes.len() <= 16 {
                write_scalar(*kind, bytes, out);
            } else {
                out.append("0x");
                write_bytes(bytes, out);
                assert(out@ =~= old(out)@ + format_spec(table@, v@));
            }
        },
        Value::Aggregate { ty, address, fields } => {
            proof {
                lemma_aggregate_view(*ty, *address, *fields);
            }
            match table.get(*ty) {
                Err(_) => {
                    out.append("?");
                },
                Ok(d) => match &d.shape {
                    Shape::Array { elem, count } => {
                        out.append("[");
                        write_members(table, fields, None, out);
                        out.append("]");
                        assert(out@ =~= old(out)@ + format_spec(table@, v@));
                    },
                    Shape::TupleStruct { arity, fields: declared } => {
                        out.append(d.path.as_str());
                        write_constructor(table, fields, None, out, Ghost(d.path@), Ghost(old(out)@));
                    },
                    Shape::Struct { fields: declared } => {
                        out.append(d.path.as_str());
                        write_constructor(
                            table,
                            fields,
                            Some(declared),
                            out,
                            Ghost(d.path@),
                            Ghost(old(out)@),
                        );
                    },
                    Shape::Closure { fields: declared } => {
                        out.append(d.path.as_str());
                        write_constructor(
                            table,
                            fields,
                            Some(declared),
                            out,
                            Ghost(d.path@),
                            Ghost(old(out)@),
                        );
                    },
                    _ => {
                        out.append("?");
                    },
                },
            }
        },
        Value::EnumValue { ty, variant, payload } => {
            proof {
                lemma_enum_view(*ty, *variant, *payload);
            }
            match table.get(*ty) {
                Err(_) => {
                    out.append("?");
                },
                Ok(d) => match &d.shape {
                    Shape::Enum { variants, strategy } => {
                        if *variant < variants.len() {
                            let var = &variants[*variant];
                            out.append(d.path.as_str());
                            out.append("::");
                            out.append(var.name.as_str());
                            let ghost head = d.path@ + "::"@ + var.name@;
                            assert(out@ =~= old(out)@ + head);
                            if var.tuple_like {
                                write_constructor(
                                    table,
                                    payload,
                                    None,
                                    out,
                                    Ghost(head),
                                    Ghost(old(out)@),
                                );
                            } else {
                                write_constructor(
                                    table,
                                    payload,
                                    Some(&var.fields),
                                    out,
                                    Ghost(head),
                                    Ghost(old(out)@),
                                );
                            }
                        } else {
                            out.append("?");
                        }
                    },
                    _ => {
                        out.append("?");
                    },
                },
            }
        },
        Value::Raw { ty, address, bytes } => {
            match table.get(*ty) {
                Ok(d) => {
                    out.append(d.path.as_str());
                },
                Err(_) => {
                    out.append("?");
                },
            }
            out.append(" {0x");
            write_bytes(bytes, out);
            out.append("}");
            assert(out@ =~= old(out)@ + format_spec(table@, v@));
        },
        Value::Reference { ty, address, metadata } => {
            out.append("0x");
            write_hex(*address as u128, out);
            assert(out@ =~= old(out)@ + format_spec(table@, v@));
        },
        Value::Slice { ty, elem, base, count } => {
            out.append("&[");
            write_decimal(*count as u128, out);
            out.append(" @ 0x");
            write_hex(*base as u128, out);
            out.append("]");
            assert(out@ =~= old(out)@ + format_spec(table@, v@));
        },
        Value::Function { ty, symbol, receiver } => {
            out.append("fn@0x");
            write_hex(*symbol as u128, out);
            assert(out@ =~= old(out)@ + format_spec(table@, v@));
        },
    }
}

/// Renders `v` as text; see [`format_spec`].
pub fn format(table: &TypeTable, v: &Value) -> (r: String)
    ensures
        r@ == format_spec(table@, v@),
{
    let mut out = String::new();
    write_value(table, v, &mut out);
    assert(out@ =~= format_spec(table@, v@));
    out
}

} // verus!
