//! What decoding makes of an encoded value: the terms in which the law is
//! stated, and the facts about single tokens that it rests on.

use vstd::prelude::*;
use crate::descriptor::{FieldView, TypeView, VariantView};
use crate::error::DecodeError;
use crate::json_parse::has_discriminant;
use crate::json_text::{escape, escape_char, key_text, quoted};
use crate::map::distinct_keys;
use crate::number::{int_text, is_digit, lemma_int_text_round_trip};
use crate::parser::{
    CharClass,
    false_text,
    in_class,
    is_float_text,
    lemma_run_end_step,
    run_end,
    spec_consume_bool,
    spec_consume_field,
    spec_consume_float,
    spec_consume_int,
    spec_consume_string,
    string_scan,
    true_text,
};
use crate::set::distinct;
use crate::table::TableKind;
use crate::value::ValueView;

verus! {

/// The name holds no double quote.
pub open spec fn no_quote(s: Seq<char>) -> bool {
    forall|i: int| 0 <= i < s.len() ==> #[trigger] s[i] != '"'
}

/// The name holds neither a double quote nor a backslash.
pub open spec fn plain_name(s: Seq<char>) -> bool {
    forall|i: int| 0 <= i < s.len() ==> #[trigger] s[i] != '"' && s[i] != '\\'
}

/// The fields have names without double quotes and valid types.
pub open spec fn valid_fields(fields: Seq<FieldView>) -> bool
    decreases fields,
{
    forall|i: int|
        0 <= i < fields.len() ==> no_quote((#[trigger] fields[i]).name) && valid_type(
            fields[i].ty,
        )
}

/// The variants have plain names, no two of them the same, and valid fields.
pub open spec fn valid_variants(variants: Seq<VariantView>) -> bool
    decreases variants,
{
    &&& forall|i: int|
        0 <= i < variants.len() ==> plain_name((#[trigger] variants[i]).name) && valid_fields(
            variants[i].fields,
        )
    &&& forall|i: int, j: int|
        0 <= i < j < variants.len() ==> (#[trigger] variants[i]).name != (
        #[trigger] variants[j]).name
}

/// A descriptor is valid where its names can be written as they are, the
/// variants of a tagged union can be told apart by name, and a container
/// has the table of a skipped one exactly where it is marked to be
/// skipped. What stands under a skipped container is a placeholder and is
/// not looked at.
pub open spec fn valid_type(ty: TypeView) -> bool
    decreases ty,
{
    match ty {
        TypeView::Struct { fields, .. } => valid_fields(fields),
        TypeView::RustEnum { variants, .. } => valid_variants(variants),
        TypeView::Vec { element, vtable, skip, .. } => (skip <==> vtable.kind == TableKind::Skip)
            && (!skip ==> valid_type(*element)),
        TypeView::HashSet { element, vtable, skip, .. } => (skip <==> vtable.kind
            == TableKind::Skip) && (!skip ==> valid_type(*element)),
        TypeView::HashMap { key, value, vtable, skip, .. } => (skip <==> vtable.kind
            == TableKind::Skip) && (!skip ==> valid_type(*key) && valid_type(*value)),
        TypeView::Option { element, vtable, skip, .. } => (skip <==> vtable.kind
            == TableKind::Skip) && (!skip ==> valid_type(*element)),
        TypeView::Box { inner } => valid_type(*inner),
        _ => true,
    }
}

/// No container in the descriptor is marked to be skipped.
pub open spec fn no_skip(ty: TypeView) -> bool
    decreases ty,
{
    match ty {
        TypeView::Struct { fields, .. } => no_skip_fields(fields),
        TypeView::RustEnum { variants, .. } => forall|i: int|
            0 <= i < variants.len() ==> no_skip_fields((#[trigger] variants[i]).fields),
        TypeView::Vec { element, skip, .. } => !skip && no_skip(*element),
        TypeView::HashSet { element, skip, .. } => !skip && no_skip(*element),
        TypeView::HashMap { key, value, skip, .. } => !skip && no_skip(*key) && no_skip(*value),
        TypeView::Option { element, skip, .. } => !skip && no_skip(*element),
        TypeView::Box { inner } => no_skip(*inner),
        _ => true,
    }
}

/// No container in the fields' types is marked to be skipped.
pub open spec fn no_skip_fields(fields: Seq<FieldView>) -> bool
    decreases fields,
{
    forall|i: int| 0 <= i < fields.len() ==> no_skip((#[trigger] fields[i]).ty)
}

/// The value with every skipped container emptied.
pub open spec fn strip(v: ValueView, ty: TypeView) -> ValueView
    decreases v,
{
    match (v, ty) {
        (ValueView::Struct(vals), TypeView::Struct { fields, .. }) => ValueView::Struct(
            strip_fields(vals, fields, vals.len()),
        ),
        (ValueView::RustEnum(idx, vals), TypeView::RustEnum { variants, .. }) => if idx
            < variants.len() {
            ValueView::RustEnum(idx, strip_fields(vals, variants[idx as int].fields, vals.len()))
        } else {
            v
        },
        (ValueView::Vec(items), TypeView::Vec { element, skip, .. }) => if skip {
            ValueView::Vec(Seq::empty())
        } else {
            ValueView::Vec(strip_items(items, *element, items.len()))
        },
        (ValueView::HashSet(items), TypeView::HashSet { element, skip, .. }) => if skip {
            ValueView::HashSet(Seq::empty())
        } else {
            ValueView::HashSet(strip_items(items, *element, items.len()))
        },
        (ValueView::HashMap(entries), TypeView::HashMap { key, value, skip, .. }) => if skip {
            ValueView::HashMap(Seq::empty())
        } else {
            ValueView::HashMap(strip_entries(entries, *key, *value, entries.len()))
        },
        (ValueView::Option(o), TypeView::Option { element, skip, .. }) => if skip {
            ValueView::Option(None)
        } else {
            match o {
                None => ValueView::Option(None),
                Some(inner) => ValueView::Option(Some(Box::new(strip(*inner, *element)))),
            }
        },
        (ValueView::Box(inner), TypeView::Box { inner: inner_ty }) => ValueView::Box(
            Box::new(strip(*inner, *inner_ty)),
        ),
        _ => v,
    }
}

/// The first `n` fields, each stripped under its field's type.
pub open spec fn strip_fields(vals: Seq<ValueView>, fields: Seq<FieldView>, n: nat) -> Seq<
    ValueView,
>
    decreases vals, n,
{
    if n == 0 || n > vals.len() || n > fields.len() {
        Seq::empty()
    } else {
        strip_fields(vals, fields, (n - 1) as nat).push(
            strip(vals[n - 1], fields[n - 1].ty),
        )
    }
}

/// The first `n` elements, each stripped under the element type.
pub open spec fn strip_items(items: Seq<ValueView>, ty: TypeView, n: nat) -> Seq<ValueView>
    decreases items, n,
{
    if n == 0 || n > items.len() {
        Seq::empty()
    } else {
        strip_items(items, ty, (n - 1) as nat).push(strip(items[n - 1], ty))
    }
}

/// The first `n` entries, key and value stripped under their types.
pub open spec fn strip_entries(
    entries: Seq<(ValueView, ValueView)>,
    key: TypeView,
    value: TypeView,
    n: nat,
) -> Seq<(ValueView, ValueView)>
    decreases entries, n,
{
    if n == 0 || n > entries.len() {
        Seq::empty()
    } else {
        strip_entries(entries, key, value, (n - 1) as nat).push(
            (strip(entries[n - 1].0, key), strip(entries[n - 1].1, value)),
        )
    }
}

/// A value conforms to a descriptor where it has the described shape,
/// a floating-point leaf holds a decimal number, a plain enumeration holds
/// a declared discriminant, a sequence is no longer than the machine can
/// grow it, and the elements of a set and the keys of a mapping stay
/// distinct once skipped containers are emptied. What a skipped container
/// holds is not looked at.
pub open spec fn conforms(v: ValueView, ty: TypeView) -> bool
    decreases v,
{
    match (v, ty) {
        (ValueView::I32(_), TypeView::I32) => true,
        (ValueView::U32(_), TypeView::U32) => true,
        (ValueView::I64(_), TypeView::I64) => true,
        (ValueView::U64(_), TypeView::U64) => true,
        (ValueView::ISize(_), TypeView::ISize) => true,
        (ValueView::USize(_), TypeView::USize) => true,
        (ValueView::F32(t), TypeView::F32) => is_float_text(t),
        (ValueView::F64(t), TypeView::F64) => is_float_text(t),
        (ValueView::Bool(_), TypeView::Bool) => true,
        (ValueView::String(_), TypeView::String) => true,
        (ValueView::CEnum(d), TypeView::CEnum { variants, .. }) => has_discriminant(
            variants,
            d as int,
        ),
        (ValueView::Struct(vals), TypeView::Struct { fields, .. }) => vals.len() == fields.len()
            && conforms_fields(vals, fields),
        (ValueView::RustEnum(idx, vals), TypeView::RustEnum { variants, .. }) => idx
            < variants.len() && vals.len() == variants[idx as int].fields.len() && conforms_fields(
            vals,
            variants[idx as int].fields,
        ),
        (ValueView::Vec(items), TypeView::Vec { element, skip, .. }) => skip || (items.len()
            <= usize::MAX - 8 && conforms_items(items, *element)),
        (ValueView::HashSet(items), TypeView::HashSet { element, skip, .. }) => skip || (
        conforms_items(items, *element) && distinct(strip_items(items, *element, items.len()))),
        (ValueView::HashMap(entries), TypeView::HashMap { key, value, skip, .. }) => skip || (
        conforms_entries(entries, *key, *value) && distinct_keys(
            strip_entries(entries, *key, *value, entries.len()),
        )),
        (ValueView::Option(o), TypeView::Option { element, skip, .. }) => skip || (match o {
            None => true,
            Some(inner) => conforms(*inner, *element),
        }),
        (ValueView::Box(inner), TypeView::Box { inner: inner_ty }) => conforms(*inner, *inner_ty),
        _ => false,
    }
}

/// Every field conforms to its field's type.
pub open spec fn conforms_fields(vals: Seq<ValueView>, fields: Seq<FieldView>) -> bool
    decreases vals,
{
    forall|i: int|
        0 <= i < vals.len() && i < fields.len() ==> conforms(#[trigger] vals[i], fields[i].ty)
}

/// Every element conforms to the element type.
pub open spec fn conforms_items(items: Seq<ValueView>, ty: TypeView) -> bool
    decreases items,
{
    forall|i: int| 0 <= i < items.len() ==> conforms(#[trigger] items[i], ty)
}

/// Every key and every value conforms to its type.
pub open spec fn conforms_entries(
    entries: Seq<(ValueView, ValueView)>,
    key: TypeView,
    value: TypeView,
) -> bool
    decreases entries,
{
    forall|i: int|
        0 <= i < entries.len() ==> conforms((#[trigger] entries[i]).0, key) && conforms(
            entries[i].1,
            value,
        )
}

/// The text holds `t` at `p`.
pub open spec fn reads(text: Seq<char>, p: int, t: Seq<char>) -> bool {
    0 <= p && p + t.len() <= text.len() && text.subrange(p, p + t.len()) == t
}

/// A value may end at `q`: the text ends there, or a comma or a closing
/// bracket or brace stands there.
pub open spec fn ends_value(text: Seq<char>, q: int) -> bool {
    q == text.len() || (0 <= q < text.len() && (text[q] == ',' || text[q] == '}' || text[q]
        == ']'))
}

/// A value can start with the character: no comma and no closing bracket or brace.
pub open spec fn starts_value(c: char) -> bool {
    c != ',' && c != ']' && c != '}'
}

/// A text that is read at a place is read character by character.
pub proof fn lemma_reads_index(text: Seq<char>, p: int, t: Seq<char>, i: int)
    requires
        reads(text, p, t),
        0 <= i < t.len(),
    ensures
        text[p + i] == t[i],
{
    assert(text.subrange(p, p + t.len())[i] == text[p + i]);
}

/// Reading two texts one after the other is reading them joined.
pub proof fn lemma_reads_split(text: Seq<char>, p: int, a: Seq<char>, b: Seq<char>)
    requires
        reads(text, p, a + b),
    ensures
        reads(text, p, a),
        reads(text, p + a.len(), b),
{
    let t = a + b;
    assert(text.subrange(p, p + a.len()) =~= a) by {
        assert forall|i: int| 0 <= i < a.len() implies text.subrange(p, p + a.len())[i]
            == a[i] by {
            lemma_reads_index(text, p, t, i);
        }
    }
    assert(text.subrange(p + a.len(), p + a.len() + b.len()) =~= b) by {
        assert forall|i: int| 0 <= i < b.len() implies text.subrange(
            p + a.len(),
            p + a.len() + b.len(),
        )[i] == b[i] by {
            lemma_reads_index(text, p, t, a.len() as int + i);
        }
    }
}

/// A run that reads a text of its class and is followed by a character
/// outside the class, or by the end, is that text.
pub proof fn lemma_run_exact(text: Seq<char>, p: int, t: Seq<char>, class: CharClass)
    requires
        reads(text, p, t),
        forall|i: int| 0 <= i < t.len() ==> in_class(#[trigger] t[i], class),
        p + t.len() == text.len() || !in_class(text[p + t.len()], class),
    ensures
        run_end(text, p, class) == p + t.len(),
        text.subrange(p, run_end(text, p, class)) == t,
{
    assert forall|i: int| p <= i < p + t.len() implies in_class(#[trigger] text[i], class) by {
        lemma_reads_index(text, p, t, i - p);
    }
    lemma_run_end_step(text, p, p + t.len(), class);
}

/// Reading back the text of an integer gives the integer.
pub proof fn lemma_read_int(text: Seq<char>, p: int, i: int, signed: bool, lo: int, hi: int)
    requires
        reads(text, p, int_text(i)),
        ends_value(text, p + int_text(i).len()),
        signed || i >= 0,
        lo <= i <= hi,
    ensures
        spec_consume_int(text, p, signed, lo, hi) == Ok::<(int, int), DecodeError>(
            (i, p + int_text(i).len()),
        ),
        int_text(i).len() > 0,
        starts_value(int_text(i)[0]),
{
    let t = int_text(i);
    lemma_int_text_round_trip(i, signed);
    assert forall|k: int| 0 <= k < t.len() implies in_class(#[trigger] t[k], CharClass::Int) by {}
    lemma_run_exact(text, p, t, CharClass::Int);
}

/// A decimal number with an optional fraction is made of digits, signs and points.
pub proof fn lemma_float_chars(t: Seq<char>)
    requires
        is_float_text(t),
    ensures
        t.len() > 0,
        starts_value(t[0]),
        forall|k: int| 0 <= k < t.len() ==> in_class(#[trigger] t[k], CharClass::Float),
{
    if t.len() > 0 && (t[0] == '+' || t[0] == '-') {
        let body = t.skip(1);
        assert forall|k: int| 0 <= k < t.len() implies in_class(
            #[trigger] t[k],
            CharClass::Float,
        ) by {
            if k > 0 {
                assert(t[k] == body[k - 1]);
            }
        }
    } else {
        if t.len() == 0 {
            assert(crate::parser::digit_count(t) == 0);
        }
        assert forall|k: int| 0 <= k < t.len() implies in_class(
            #[trigger] t[k],
            CharClass::Float,
        ) by {}
        assert(is_digit(t[0]) || t[0] == '.');
    }
}

/// Reading back the text of a decimal number gives the text.
pub proof fn lemma_read_float(text: Seq<char>, p: int, t: Seq<char>)
    requires
        reads(text, p, t),
        ends_value(text, p + t.len()),
        is_float_text(t),
    ensures
        spec_consume_float(text, p) == Ok::<(Seq<char>, int), DecodeError>((t, p + t.len())),
        t.len() > 0,
        starts_value(t[0]),
{
    lemma_float_chars(t);
    lemma_run_exact(text, p, t, CharClass::Float);
}

/// Reading back `true` or `false` gives the truth value.
pub proof fn lemma_read_bool(text: Seq<char>, p: int, b: bool)
    requires
        reads(text, p, if b {
            true_text()
        } else {
            false_text()
        }),
        ends_value(text, p + (if b {
            true_text()
        } else {
            false_text()
        }).len()),
    ensures
        spec_consume_bool(text, p) == Ok::<(bool, int), DecodeError>(
            (b, p + (if b {
                true_text()
            } else {
                false_text()
            }).len()),
        ),
{
    let t = if b {
        true_text()
    } else {
        false_text()
    };
    assert forall|k: int| 0 <= k < t.len() implies in_class(#[trigger] t[k], CharClass::Plain) by {}
    lemma_run_exact(text, p, t, CharClass::Plain);
    assert(true_text() != false_text()) by {
        assert(true_text().len() != false_text().len());
    }
}

/// Reading back a field's key gives the place after its colon.
pub proof fn lemma_read_key(text: Seq<char>, p: int, name: Seq<char>)
    requires
        reads(text, p, key_text(name)),
        no_quote(name),
    ensures
        spec_consume_field(text, p, name) == Ok::<int, DecodeError>(p + key_text(name).len()),
        key_text(name).len() == name.len() + 3,
{
    let t = key_text(name);
    assert(t.len() == name.len() + 3);
    lemma_reads_index(text, p, t, 0);
    assert(t[0] == '"');
    assert(reads(text, p + 1, name)) by {
        assert(text.subrange(p + 1, p + 1 + name.len()) =~= name) by {
            assert forall|i: int| 0 <= i < name.len() implies text.subrange(
                p + 1,
                p + 1 + name.len(),
            )[i] == name[i] by {
                lemma_reads_index(text, p, t, i + 1);
                assert(t[i + 1] == name[i]);
            }
        }
    }
    let n = name.len() as int;
    lemma_reads_index(text, p, t, n + 1);
    assert(t[n + 1] == '"');
    lemma_reads_index(text, p, t, n + 2);
    assert(t[n + 2] == ':');
    assert forall|i: int| 0 <= i < name.len() implies in_class(
        #[trigger] name[i],
        CharClass::Name,
    ) by {}
    lemma_run_exact(text, p + 1, name, CharClass::Name);
}

/// Scanning the escaped form of a string up to the closing quote gives
/// the string.
pub proof fn lemma_scan_escaped(text: Seq<char>, p: int, s: Seq<char>, acc: Seq<char>)
    requires
        reads(text, p, escape(s) + seq!['"']),
    ensures
        string_scan(text, p, acc) == Ok::<(Seq<char>, int), DecodeError>(
            (acc + s, p + escape(s).len()),
        ),
    decreases s.len(),
{
    let t = escape(s) + seq!['"'];
    if s.len() == 0 {
        assert(escape(s).len() == 0);
        lemma_reads_index(text, p, t, 0);
        assert(acc + s =~= acc);
    } else {
        let c = s[0];
        let rest = s.skip(1);
        assert(escape(s) == escape_char(c) + escape(rest));
        assert(t =~= escape_char(c) + (escape(rest) + seq!['"']));
        lemma_reads_split(text, p, escape_char(c), escape(rest) + seq!['"']);
        if c == '\\' || c == '"' {
            lemma_reads_index(text, p, escape_char(c), 0);
            lemma_reads_index(text, p, escape_char(c), 1);
            lemma_scan_escaped(text, p + 2, rest, acc.push(c));
            assert(acc.push(c) + rest =~= acc + s);
        } else {
            lemma_reads_index(text, p, escape_char(c), 0);
            lemma_scan_escaped(text, p + 1, rest, acc.push(c));
            assert(acc.push(c) + rest =~= acc + s);
        }
    }
}

/// Reading back a written string gives the string.
pub proof fn lemma_read_string(text: Seq<char>, p: int, s: Seq<char>)
    requires
        reads(text, p, quoted(escape(s))),
    ensures
        spec_consume_string(text, p) == Ok::<(Seq<char>, int), DecodeError>(
            (s, p + quoted(escape(s)).len()),
        ),
{
    let t = quoted(escape(s));
    assert(t =~= seq!['"'] + (escape(s) + seq!['"']));
    lemma_reads_split(text, p, seq!['"'], escape(s) + seq!['"']);
    lemma_reads_index(text, p, seq!['"'], 0);
    lemma_scan_escaped(text, p + 1, s, Seq::empty());
    assert(Seq::<char>::empty() + s =~= s);
}

/// Reading back a name that is written as it stands gives the name.
pub proof fn lemma_read_plain_name(text: Seq<char>, p: int, s: Seq<char>)
    requires
        reads(text, p, quoted(s)),
        plain_name(s),
    ensures
        spec_consume_string(text, p) == Ok::<(Seq<char>, int), DecodeError>(
            (s, p + quoted(s).len()),
        ),
{
    lemma_escape_plain(s);
    lemma_read_string(text, p, s);
}

/// A plain name is written as it stands.
pub proof fn lemma_escape_plain(s: Seq<char>)
    requires
        plain_name(s),
    ensures
        escape(s) == s,
    decreases s.len(),
{
    if s.len() > 0 {
        let rest = s.skip(1);
        assert forall|i: int| 0 <= i < rest.len() implies #[trigger] rest[i] != '"' && rest[i]
            != '\\' by {
            assert(rest[i] == s[i + 1]);
        }
        lemma_escape_plain(rest);
        assert(escape(s) =~= s);
    } else {
        assert(escape(s) =~= s);
    }
}

} // verus!
