//! The law of the codec: decoding the text of a value gives the value
//! back, with every skipped container emptied.

use vstd::prelude::*;
use crate::descriptor::{FieldView, TypeView, VariantView};
use crate::encode::comma_before;
use crate::error::DecodeError;
use crate::json_parse::{
    find_variant,
    parse_entry,
    parse_fields,
    parse_map_entries,
    parse_seq_items,
    parse_set_items,
    parse_value,
};
use crate::json_text::{
    encode_error,
    entries_text,
    entry_text,
    escape,
    fields_text,
    items_text,
    json_text,
    key_name,
    key_text,
    quoted,
    value_name,
    variant_key,
};
use crate::map::{distinct_keys, key_index, lemma_key_index, map_insert};
use crate::parser::{spec_consume_char, spec_consume_field, spec_consume_maybe, spec_consume_string};
use crate::round_trip::{
    conforms,
    conforms_entries,
    conforms_fields,
    conforms_items,
    ends_value,
    lemma_read_bool,
    lemma_read_float,
    lemma_read_int,
    lemma_read_key,
    lemma_read_plain_name,
    lemma_read_string,
    lemma_reads_index,
    lemma_reads_split,
    no_quote,
    no_skip,
    no_skip_fields,
    plain_name,
    reads,
    starts_value,
    strip,
    strip_entries,
    strip_fields,
    strip_items,
    valid_fields,
    valid_type,
    valid_variants,
};
use crate::set::{distinct, set_insert};
use crate::value::ValueView;

verus! {

/// Reading at `p` gives the stripped value and ends right after the
/// value's text, which is not empty and starts as a value may.
pub open spec fn decodes_to(text: Seq<char>, p: int, v: ValueView, ty: TypeView) -> bool {
    &&& parse_value(text, p, ty) == Ok::<(ValueView, int), DecodeError>(
        (strip(v, ty), p + json_text(v, ty).len()),
    )
    &&& json_text(v, ty).len() > 0
    &&& starts_value(json_text(v, ty)[0])
}

/// The kinds of descriptor without parts.
pub open spec fn is_leaf(ty: TypeView) -> bool {
    ty is I32 || ty is U32 || ty is I64 || ty is U64 || ty is ISize || ty is USize || ty is F32
        || ty is F64 || ty is Bool || ty is String || ty is CEnum
}

/// Decoding the text of a leaf gives the leaf.
pub proof fn lemma_decode_leaf(text: Seq<char>, p: int, v: ValueView, ty: TypeView)
    requires
        is_leaf(ty),
        conforms(v, ty),
        reads(text, p, json_text(v, ty)),
        ends_value(text, p + json_text(v, ty).len()),
    ensures
        decodes_to(text, p, v, ty),
{
    match (v, ty) {
        (ValueView::I32(x), TypeView::I32) => {
            lemma_read_int(text, p, x as int, true, i32::MIN as int, i32::MAX as int);
        },
        (ValueView::U32(x), TypeView::U32) => {
            lemma_read_int(text, p, x as int, false, 0, u32::MAX as int);
        },
        (ValueView::I64(x), TypeView::I64) => {
            lemma_read_int(text, p, x as int, true, i64::MIN as int, i64::MAX as int);
        },
        (ValueView::U64(x), TypeView::U64) => {
            lemma_read_int(text, p, x as int, false, 0, u64::MAX as int);
        },
        (ValueView::ISize(x), TypeView::ISize) => {
            lemma_read_int(text, p, x as int, true, isize::MIN as int, isize::MAX as int);
        },
        (ValueView::USize(x), TypeView::USize) => {
            lemma_read_int(text, p, x as int, false, 0, usize::MAX as int);
        },
        (ValueView::F32(t), TypeView::F32) => {
            lemma_read_float(text, p, t);
        },
        (ValueView::F64(t), TypeView::F64) => {
            lemma_read_float(text, p, t);
        },
        (ValueView::Bool(b), TypeView::Bool) => {
            lemma_read_bool(text, p, b);
        },
        (ValueView::String(s), TypeView::String) => {
            lemma_read_string(text, p, s);
            assert(quoted(escape(s))[0] == '"');
        },
        (ValueView::CEnum(d), TypeView::CEnum { .. }) => {
            lemma_read_int(text, p, d as int, true, i32::MIN as int, i32::MAX as int);
        },
        _ => {},
    }
}

/// The stripped fields are as many as were asked for, each the stripped field.
pub proof fn lemma_strip_fields(vals: Seq<ValueView>, fields: Seq<FieldView>, n: nat)
    requires
        n <= vals.len(),
        n <= fields.len(),
    ensures
        strip_fields(vals, fields, n).len() == n,
        forall|k: int|
            0 <= k < n ==> #[trigger] strip_fields(vals, fields, n)[k] == strip(
                vals[k],
                fields[k].ty,
            ),
    decreases n,
{
    if n > 0 {
        lemma_strip_fields(vals, fields, (n - 1) as nat);
    }
}

/// The stripped elements are as many as were asked for, each the stripped element.
pub proof fn lemma_strip_items(items: Seq<ValueView>, ty: TypeView, n: nat)
    requires
        n <= items.len(),
    ensures
        strip_items(items, ty, n).len() == n,
        forall|k: int| 0 <= k < n ==> #[trigger] strip_items(items, ty, n)[k] == strip(items[k], ty),
    decreases n,
{
    if n > 0 {
        lemma_strip_items(items, ty, (n - 1) as nat);
    }
}

/// The stripped entries are as many as were asked for, each the stripped entry.
pub proof fn lemma_strip_entries(
    entries: Seq<(ValueView, ValueView)>,
    key: TypeView,
    value: TypeView,
    n: nat,
)
    requires
        n <= entries.len(),
    ensures
        strip_entries(entries, key, value, n).len() == n,
        forall|k: int|
            0 <= k < n ==> #[trigger] strip_entries(entries, key, value, n)[k] == (
                strip(entries[k].0, key),
                strip(entries[k].1, value),
            ),
    decreases n,
{
    if n > 0 {
        lemma_strip_entries(entries, key, value, (n - 1) as nat);
    }
}

/// Decoding the text of a value that conforms to a valid descriptor, where
/// the text stands at `p` and a value may end after it, gives the value
/// with every skipped container emptied.
pub proof fn lemma_decode_at(text: Seq<char>, p: int, v: ValueView, ty: TypeView)
    requires
        valid_type(ty),
        conforms(v, ty),
        reads(text, p, json_text(v, ty)),
        ends_value(text, p + json_text(v, ty).len()),
    ensures
        decodes_to(text, p, v, ty),
    decreases v, 2nat,
{
    if is_leaf(ty) {
        lemma_decode_leaf(text, p, v, ty);
    } else {
        match (v, ty) {
            (ValueView::Struct(_), TypeView::Struct { .. }) => {
                lemma_decode_struct(text, p, v, ty);
            },
            (ValueView::RustEnum(_, _), TypeView::RustEnum { .. }) => {
                lemma_decode_enum(text, p, v, ty);
            },
            (ValueView::Vec(_), TypeView::Vec { .. }) => {
                lemma_decode_vec(text, p, v, ty);
            },
            (ValueView::HashSet(_), TypeView::HashSet { .. }) => {
                lemma_decode_set(text, p, v, ty);
            },
            (ValueView::HashMap(_), TypeView::HashMap { .. }) => {
                lemma_decode_map(text, p, v, ty);
            },
            (ValueView::Option(_), TypeView::Option { .. }) => {
                lemma_decode_option(text, p, v, ty);
            },
            (ValueView::Box(inner), TypeView::Box { inner: inner_ty }) => {
                lemma_decode_at(text, p, *inner, *inner_ty);
            },
            _ => {},
        }
    }
}

/// Decoding the text of the fields from the `k`-th on, up to the closing
/// brace, gives the stripped fields.
pub proof fn lemma_decode_fields(
    text: Seq<char>,
    p: int,
    vals: Seq<ValueView>,
    fields: Seq<FieldView>,
    k: nat,
)
    requires
        vals.len() == fields.len(),
        k <= vals.len(),
        valid_fields(fields),
        conforms_fields(vals, fields),
        reads(text, p, fields_text(vals, fields, k) + seq!['}']),
    ensures
        parse_fields(text, p, fields, k, strip_fields(vals, fields, k)) == Ok::<
            (Seq<ValueView>, int),
            DecodeError,
        >((strip_fields(vals, fields, vals.len()), p + fields_text(vals, fields, k).len())),
    decreases vals, vals.len() - k,
{
    let n = vals.len();
    let acc = strip_fields(vals, fields, k);
    if k >= n {
        assert(fields_text(vals, fields, k).len() == 0);
    } else {
        let name = fields[k as int].name;
        let vk = vals[k as int];
        let tk = fields[k as int].ty;
        let kt = key_text(name);
        let vt = json_text(vk, tk);
        let next = fields_text(vals, fields, k + 1);
        let tail = if k + 1 < n {
            seq![','] + next
        } else {
            Seq::<char>::empty()
        };
        let close = seq!['}'];
        assert(fields_text(vals, fields, k) == kt + vt + tail);
        assert(fields_text(vals, fields, k) + close =~= kt + (vt + (tail + close)));
        lemma_reads_split(text, p, kt, vt + (tail + close));
        let p1 = p + kt.len();
        lemma_reads_split(text, p1, vt, tail + close);
        let p2 = p1 + vt.len();
        lemma_reads_index(text, p2, tail + close, 0);
        assert(ends_value(text, p2));
        lemma_read_key(text, p, name);
        lemma_decode_at(text, p1, vk, tk);
        if k + 1 < n {
            assert(tail + close =~= seq![','] + (next + close));
            lemma_reads_split(text, p2, seq![','], next + close);
            assert(spec_consume_maybe(text, p2, ',') == Ok::<int, DecodeError>(p2 + 1));
            lemma_decode_fields(text, p2 + 1, vals, fields, k + 1);
        } else {
            assert(next.len() == 0);
            assert(tail + close =~= next + close);
            assert(spec_consume_maybe(text, p2, ',') == Ok::<int, DecodeError>(p2));
            lemma_decode_fields(text, p2, vals, fields, k + 1);
        }
        assert(strip_fields(vals, fields, k + 1) == acc.push(strip(vk, tk)));
    }
}

/// Decoding the text of a struct gives the struct, stripped.
pub proof fn lemma_decode_struct(text: Seq<char>, p: int, v: ValueView, ty: TypeView)
    requires
        v is Struct,
        ty is Struct,
        valid_type(ty),
        conforms(v, ty),
        reads(text, p, json_text(v, ty)),
        ends_value(text, p + json_text(v, ty).len()),
    ensures
        decodes_to(text, p, v, ty),
    decreases v, 1nat,
{
    let vals = v->Struct_0;
    let fields = ty->Struct_fields;
    let open = seq!['{'];
    let close = seq!['}'];
    let body = fields_text(vals, fields, 0);
    assert(json_text(v, ty) == open + body + close);
    assert(json_text(v, ty) =~= open + (body + close));
    lemma_reads_split(text, p, open, body + close);
    lemma_reads_index(text, p, open, 0);
    lemma_decode_fields(text, p + 1, vals, fields, 0);
    lemma_reads_split(text, p + 1, body, close);
    lemma_reads_index(text, p + 1 + body.len(), close, 0);
    assert(json_text(v, ty)[0] == '{');
}

/// A variant is found under its own name where no two variants share a name.
pub proof fn lemma_find_own_variant(variants: Seq<VariantView>, idx: int)
    requires
        valid_variants(variants),
        0 <= idx < variants.len(),
    ensures
        find_variant(variants, variants[idx].name, 0) == idx,
{
    let name = variants[idx].name;
    crate::decode::lemma_find_variant(variants, name, 0);
    let found = find_variant(variants, name, 0);
    if found < idx {
        assert(variants[found].name == variants[idx].name);
    }
    if found > idx {
        assert(variants[idx].name != name);
    }
}

/// Decoding the text of a tagged union gives the variant and its fields, stripped.
pub proof fn lemma_decode_enum(text: Seq<char>, p: int, v: ValueView, ty: TypeView)
    requires
        v is RustEnum,
        ty is RustEnum,
        valid_type(ty),
        conforms(v, ty),
        reads(text, p, json_text(v, ty)),
        ends_value(text, p + json_text(v, ty).len()),
    ensures
        decodes_to(text, p, v, ty),
    decreases v, 1nat,
{
    let idx = v->RustEnum_0 as int;
    let vals = v->RustEnum_1;
    match ty {
        TypeView::RustEnum { variants, .. } => {
            assert(valid_variants(variants));
            let variant = variants[idx];
            let fields = variant.fields;
            assert(plain_name(variant.name) && valid_fields(fields));
            let open = seq!['{'];
            let close = seq!['}'];
            let kt = key_text(variant_key());
            let nt = quoted(variant.name);
            let body = fields_text(vals, fields, 0);
            let tail = if vals.len() > 0 {
                seq![','] + body
            } else {
                Seq::<char>::empty()
            };
            assert(json_text(v, ty) == open + kt + nt + tail + close);
            assert(json_text(v, ty) =~= open + (kt + (nt + (tail + close))));
            lemma_reads_split(text, p, open, kt + (nt + (tail + close)));
            lemma_reads_index(text, p, open, 0);
            let p1 = p + 1;
            lemma_reads_split(text, p1, kt, nt + (tail + close));
            assert(no_quote(variant_key()));
            lemma_read_key(text, p1, variant_key());
            let p2 = p1 + kt.len();
            lemma_reads_split(text, p2, nt, tail + close);
            lemma_read_plain_name(text, p2, variant.name);
            let p3 = p2 + nt.len();
            lemma_find_own_variant(variants, idx);
            lemma_reads_index(text, p3, tail + close, 0);
            if vals.len() > 0 {
                assert(tail + close =~= seq![','] + (body + close));
                lemma_reads_split(text, p3, seq![','], body + close);
                assert(spec_consume_maybe(text, p3, ',') == Ok::<int, DecodeError>(p3 + 1));
                lemma_decode_fields(text, p3 + 1, vals, fields, 0);
                lemma_reads_split(text, p3 + 1, body, close);
                lemma_reads_index(text, p3 + 1 + body.len(), close, 0);
            } else {
                assert(body.len() == 0);
                assert(tail + close =~= body + close);
                assert(spec_consume_maybe(text, p3, ',') == Ok::<int, DecodeError>(p3));
                lemma_decode_fields(text, p3, vals, fields, 0);
            }
            assert(json_text(v, ty)[0] == '{');
        },
        _ => {},
    }
}

/// Decoding the text of the elements of a sequence from the `k`-th on,
/// up to the closing bracket, gives the stripped elements.
pub proof fn lemma_decode_seq_items(
    text: Seq<char>,
    p: int,
    items: Seq<ValueView>,
    cty: TypeView,
    k: nat,
)
    requires
        cty is Vec,
        valid_type(cty),
        !cty->Vec_skip,
        conforms_items(items, *cty->Vec_element),
        items.len() <= usize::MAX - 8,
        k <= items.len(),
        reads(
            text,
            p,
            comma_before(k, items.len()) + items_text(items, *cty->Vec_element, k) + seq![']'],
        ),
    ensures
        parse_seq_items(text, p, cty, strip_items(items, *cty->Vec_element, k)) == Ok::<
            (Seq<ValueView>, int),
            DecodeError,
        >(
            (
                strip_items(items, *cty->Vec_element, items.len()),
                p + comma_before(k, items.len()).len() + items_text(items, *cty->Vec_element, k).len(),
            ),
        ),
    decreases items, items.len() - k,
{
    let n = items.len();
    let ety = *cty->Vec_element;
    let acc = strip_items(items, ety, k);
    let close = seq![']'];
    let sep = comma_before(k, n);
    lemma_strip_items(items, ety, k);
    if k >= n {
        assert(sep.len() == 0);
        assert(items_text(items, ety, k).len() == 0);
        assert(sep + items_text(items, ety, k) + close =~= close);
        lemma_reads_index(text, p, close, 0);
    } else {
        let vk = items[k as int];
        let vt = json_text(vk, ety);
        let next_sep = comma_before(k + 1, n);
        let next = items_text(items, ety, k + 1);
        assert(items_text(items, ety, k) =~= vt + (next_sep + next));
        assert(sep + items_text(items, ety, k) + close =~= sep + (vt + (next_sep + next + close)));
        lemma_reads_split(text, p, sep, vt + (next_sep + next + close));
        let p1 = p + sep.len();
        lemma_reads_split(text, p1, vt, next_sep + next + close);
        let p2 = p1 + vt.len();
        lemma_reads_index(text, p2, next_sep + next + close, 0);
        assert(ends_value(text, p2));
        lemma_decode_at(text, p1, vk, ety);
        lemma_reads_index(text, p1, vt, 0);
        if k > 0 {
            lemma_reads_index(text, p, sep, 0);
            assert(text[p] == ',');
        } else {
            assert(text[p] == vt[0]);
        }
        assert(text[p] != ']');
        assert(strip_items(items, ety, k + 1) == acc.push(strip(vk, ety)));
        lemma_decode_seq_items(text, p2, items, cty, k + 1);
    }
}

/// Decoding the text of a sequence gives the sequence, stripped.
pub proof fn lemma_decode_vec(text: Seq<char>, p: int, v: ValueView, ty: TypeView)
    requires
        v is Vec,
        ty is Vec,
        valid_type(ty),
        conforms(v, ty),
        reads(text, p, json_text(v, ty)),
        ends_value(text, p + json_text(v, ty).len()),
    ensures
        decodes_to(text, p, v, ty),
    decreases v, 1nat,
{
    let items = v->Vec_0;
    let ety = *ty->Vec_element;
    let open = seq!['['];
    let close = seq![']'];
    if ty->Vec_skip {
        assert(json_text(v, ty) =~= open + close);
        lemma_reads_split(text, p, open, close);
        lemma_reads_index(text, p, open, 0);
        lemma_reads_index(text, p + 1, close, 0);
        assert(json_text(v, ty)[0] == '[');
    } else {
        let body = items_text(items, ety, 0);
        assert(json_text(v, ty) == open + body + close);
        assert(comma_before(0, items.len()).len() == 0);
        assert(json_text(v, ty) =~= open + (comma_before(0, items.len()) + body + close));
        lemma_reads_split(text, p, open, comma_before(0, items.len()) + body + close);
        lemma_reads_index(text, p, open, 0);
        lemma_decode_seq_items(text, p + 1, items, ty, 0);
        assert(comma_before(0, items.len()) + body + close =~= body + close);
        lemma_reads_split(text, p + 1, body, close);
        lemma_reads_index(text, p + 1 + body.len(), close, 0);
        assert(json_text(v, ty)[0] == '[');
    }
}

/// Decoding the text of the elements of a set from the `k`-th on, up to
/// the closing bracket, gives the stripped elements.
pub proof fn lemma_decode_set_items(
    text: Seq<char>,
    p: int,
    items: Seq<ValueView>,
    cty: TypeView,
    k: nat,
)
    requires
        cty is HashSet,
        valid_type(cty),
        !cty->HashSet_skip,
        conforms_items(items, *cty->HashSet_element),
        distinct(strip_items(items, *cty->HashSet_element, items.len())),
        k <= items.len(),
        reads(
            text,
            p,
            comma_before(k, items.len()) + items_text(items, *cty->HashSet_element, k) + seq![']'],
        ),
    ensures
        parse_set_items(text, p, cty, strip_items(items, *cty->HashSet_element, k)) == Ok::<
            (Seq<ValueView>, int),
            DecodeError,
        >(
            (
                strip_items(items, *cty->HashSet_element, items.len()),
                p + comma_before(k, items.len()).len() + items_text(items, *cty->HashSet_element, k).len(),
            ),
        ),
    decreases items, items.len() - k,
{
    let n = items.len();
    let ety = *cty->HashSet_element;
    let acc = strip_items(items, ety, k);
    let all = strip_items(items, ety, n);
    let close = seq![']'];
    let sep = comma_before(k, n);
    lemma_strip_items(items, ety, k);
    lemma_strip_items(items, ety, n);
    if k >= n {
        assert(sep.len() == 0);
        assert(items_text(items, ety, k).len() == 0);
        assert(sep + items_text(items, ety, k) + close =~= close);
        lemma_reads_index(text, p, close, 0);
    } else {
        let vk = items[k as int];
        let vt = json_text(vk, ety);
        let next_sep = comma_before(k + 1, n);
        let next = items_text(items, ety, k + 1);
        assert(items_text(items, ety, k) =~= vt + (next_sep + next));
        assert(sep + items_text(items, ety, k) + close =~= sep + (vt + (next_sep + next + close)));
        lemma_reads_split(text, p, sep, vt + (next_sep + next + close));
        let p1 = p + sep.len();
        lemma_reads_split(text, p1, vt, next_sep + next + close);
        let p2 = p1 + vt.len();
        lemma_reads_index(text, p2, next_sep + next + close, 0);
        assert(ends_value(text, p2));
        lemma_decode_at(text, p1, vk, ety);
        lemma_reads_index(text, p1, vt, 0);
        if k > 0 {
            lemma_reads_index(text, p, sep, 0);
            assert(text[p] == ',');
            assert(spec_consume_maybe(text, p, ',') == Ok::<int, DecodeError>(p1));
        } else {
            assert(text[p] == vt[0]);
            assert(spec_consume_maybe(text, p, ',') == Ok::<int, DecodeError>(p1));
        }
        assert(text[p] != ']');
        let x = strip(vk, ety);
        assert(!acc.contains(x)) by {
            if acc.contains(x) {
                let i = choose|i: int| 0 <= i < acc.len() && acc[i] == x;
                assert(all[i] == acc[i]);
                assert(all[k as int] == x);
            }
        }
        assert(set_insert(acc, x) == acc.push(x));
        assert(strip_items(items, ety, k + 1) == acc.push(x));
        lemma_decode_set_items(text, p2, items, cty, k + 1);
    }
}

/// Decoding the text of a set gives the set, stripped.
pub proof fn lemma_decode_set(text: Seq<char>, p: int, v: ValueView, ty: TypeView)
    requires
        v is HashSet,
        ty is HashSet,
        valid_type(ty),
        conforms(v, ty),
        reads(text, p, json_text(v, ty)),
        ends_value(text, p + json_text(v, ty).len()),
    ensures
        decodes_to(text, p, v, ty),
    decreases v, 1nat,
{
    let items = v->HashSet_0;
    let ety = *ty->HashSet_element;
    let open = seq!['['];
    let close = seq![']'];
    if ty->HashSet_skip {
        assert(json_text(v, ty) =~= open + close);
        lemma_reads_split(text, p, open, close);
        lemma_reads_index(text, p, open, 0);
        lemma_reads_index(text, p + 1, close, 0);
        assert(json_text(v, ty)[0] == '[');
    } else {
        let body = items_text(items, ety, 0);
        assert(json_text(v, ty) == open + body + close);
        assert(comma_before(0, items.len()).len() == 0);
        assert(json_text(v, ty) =~= open + (comma_before(0, items.len()) + body + close));
        lemma_reads_split(text, p, open, comma_before(0, items.len()) + body + close);
        lemma_reads_index(text, p, open, 0);
        lemma_decode_set_items(text, p + 1, items, ty, 0);
        assert(comma_before(0, items.len()) + body + close =~= body + close);
        lemma_reads_split(text, p + 1, body, close);
        lemma_reads_index(text, p + 1 + body.len(), close, 0);
        assert(json_text(v, ty)[0] == '[');
    }
}

/// The start of an entry reads as a brace and the key `key`.
pub proof fn lemma_read_entry_start(text: Seq<char>, p: int)
    requires
        reads(text, p, seq!['{'] + key_text(key_name())),
    ensures
        spec_consume_char(text, p, '{') == Ok::<int, DecodeError>(p + 1),
        spec_consume_field(text, p + 1, key_name()) == Ok::<int, DecodeError>(p + 7),
        (seq!['{'] + key_text(key_name())).len() == 7,
{
    lemma_reads_split(text, p, seq!['{'], key_text(key_name()));
    lemma_reads_index(text, p, seq!['{'], 0);
    assert(no_quote(key_name()));
    lemma_read_key(text, p + 1, key_name());
}

/// The middle of an entry reads as a comma and the key `value`.
pub proof fn lemma_read_entry_middle(text: Seq<char>, p: int)
    requires
        reads(text, p, seq![','] + key_text(value_name())),
    ensures
        text[p] == ',',
        spec_consume_char(text, p, ',') == Ok::<int, DecodeError>(p + 1),
        spec_consume_field(text, p + 1, value_name()) == Ok::<int, DecodeError>(p + 9),
        (seq![','] + key_text(value_name())).len() == 9,
{
    lemma_reads_split(text, p, seq![','], key_text(value_name()));
    lemma_reads_index(text, p, seq![','], 0);
    assert(no_quote(value_name()));
    lemma_read_key(text, p + 1, value_name());
}

/// An entry's text falls into five parts that are read one after the other.
pub proof fn lemma_entry_parts(text: Seq<char>, p: int, kt: Seq<char>, vt: Seq<char>)
    requires
        reads(text, p, entry_text(kt, vt)),
    ensures
        reads(text, p, seq!['{'] + key_text(key_name())),
        reads(text, p + 7, kt),
        reads(text, p + 7 + kt.len(), seq![','] + key_text(value_name())),
        reads(text, p + 16 + kt.len(), vt),
        text[p + 16 + kt.len() + vt.len()] == '}',
        entry_text(kt, vt).len() == 17 + kt.len() + vt.len(),
        entry_text(kt, vt)[0] == '{',
{
    reveal(entry_text);
    let a = seq!['{'] + key_text(key_name());
    let b = seq![','] + key_text(value_name());
    let c = seq!['}'];
    assert(a.len() == 7);
    assert(b.len() == 9);
    assert(entry_text(kt, vt) =~= a + (kt + (b + (vt + c))));
    lemma_reads_split(text, p, a, kt + (b + (vt + c)));
    lemma_reads_split(text, p + 7, kt, b + (vt + c));
    lemma_reads_split(text, p + 7 + kt.len(), b, vt + c);
    lemma_reads_split(text, p + 16 + kt.len(), vt, c);
    lemma_reads_index(text, p + 16 + kt.len() + vt.len(), c, 0);
}

/// Decoding the text of one entry of a mapping gives its key and its
/// value, stripped.
pub proof fn lemma_decode_entry(
    text: Seq<char>,
    p: int,
    entries: Seq<(ValueView, ValueView)>,
    cty: TypeView,
    k: int,
)
    requires
        cty is HashMap,
        valid_type(cty),
        !cty->HashMap_skip,
        0 <= k < entries.len(),
        conforms_entries(entries, *cty->HashMap_key, *cty->HashMap_value),
        reads(
            text,
            p,
            entry_text(
                json_text(entries[k].0, *cty->HashMap_key),
                json_text(entries[k].1, *cty->HashMap_value),
            ),
        ),
    ensures
        parse_entry(text, p, cty) == Ok::<((ValueView, ValueView), int), DecodeError>(
            (
                (strip(entries[k].0, *cty->HashMap_key), strip(entries[k].1, *cty->HashMap_value)),
                p + entry_text(
                    json_text(entries[k].0, *cty->HashMap_key),
                    json_text(entries[k].1, *cty->HashMap_value),
                ).len(),
            ),
        ),
    decreases entries, 0nat,
{
    let kty = *cty->HashMap_key;
    let vty = *cty->HashMap_value;
    let kv = entries[k].0;
    let vv = entries[k].1;
    let kt = json_text(kv, kty);
    let vt = json_text(vv, vty);
    lemma_entry_parts(text, p, kt, vt);
    lemma_read_entry_start(text, p);
    let p2 = p + 7;
    let p3 = p2 + kt.len();
    lemma_read_entry_middle(text, p3);
    assert(ends_value(text, p3));
    lemma_decode_at(text, p2, kv, kty);
    let p5 = p3 + 9;
    let p6 = p5 + vt.len();
    assert(ends_value(text, p6));
    lemma_decode_at(text, p5, vv, vty);
    assert(spec_consume_char(text, p6, '}') == Ok::<int, DecodeError>(p6 + 1));
}

/// Inserting a key that no earlier entry has puts the entry at the end.
pub proof fn lemma_insert_new_key(
    acc: Seq<(ValueView, ValueView)>,
    all: Seq<(ValueView, ValueView)>,
    x: (ValueView, ValueView),
)
    requires
        distinct_keys(all),
        acc.len() < all.len(),
        forall|i: int| 0 <= i < acc.len() ==> acc[i] == all[i],
        all[acc.len() as int] == x,
    ensures
        map_insert(acc, x.0, x.1) == acc.push(x),
{
    lemma_key_index(acc, x.0, 0);
    let found = key_index(acc, x.0, 0);
    if found < acc.len() {
        assert(all[found] == acc[found]);
        assert(all[found].0 != all[acc.len() as int].0);
    }
}

/// Decoding the text of the entries of a mapping from the `k`-th on, up
/// to the closing bracket, gives the stripped entries.
pub proof fn lemma_decode_map_entries(
    text: Seq<char>,
    p: int,
    entries: Seq<(ValueView, ValueView)>,
    cty: TypeView,
    k: nat,
)
    requires
        cty is HashMap,
        valid_type(cty),
        !cty->HashMap_skip,
        conforms_entries(entries, *cty->HashMap_key, *cty->HashMap_value),
        distinct_keys(strip_entries(entries, *cty->HashMap_key, *cty->HashMap_value, entries.len())),
        k <= entries.len(),
        reads(
            text,
            p,
            comma_before(k, entries.len()) + entries_text(entries, *cty->HashMap_key, *cty->HashMap_value, k)
                + seq![']'],
        ),
    ensures
        parse_map_entries(text, p, cty, strip_entries(entries, *cty->HashMap_key, *cty->HashMap_value, k)) == Ok::<
            (Seq<(ValueView, ValueView)>, int),
            DecodeError,
        >(
            (
                strip_entries(entries, *cty->HashMap_key, *cty->HashMap_value, entries.len()),
                p + comma_before(k, entries.len()).len() + entries_text(
                    entries,
                    *cty->HashMap_key,
                    *cty->HashMap_value,
                    k,
                ).len(),
            ),
        ),
    decreases entries, 1 + entries.len() - k,
{
    let n = entries.len();
    let kty = *cty->HashMap_key;
    let vty = *cty->HashMap_value;
    let acc = strip_entries(entries, kty, vty, k);
    let all = strip_entries(entries, kty, vty, n);
    let close = seq![']'];
    let sep = comma_before(k, n);
    lemma_strip_entries(entries, kty, vty, k);
    lemma_strip_entries(entries, kty, vty, n);
    if k >= n {
        assert(sep.len() == 0);
        assert(entries_text(entries, kty, vty, k).len() == 0);
        assert(sep + entries_text(entries, kty, vty, k) + close =~= close);
        lemma_reads_index(text, p, close, 0);
    } else {
        let et = entry_text(
            json_text(entries[k as int].0, kty),
            json_text(entries[k as int].1, vty),
        );
        let next_sep = comma_before(k + 1, n);
        let next = entries_text(entries, kty, vty, k + 1);
        assert(entries_text(entries, kty, vty, k) =~= et + (next_sep + next));
        assert(sep + entries_text(entries, kty, vty, k) + close =~= sep + (et + (next_sep + next
            + close)));
        lemma_reads_split(text, p, sep, et + (next_sep + next + close));
        let p1 = p + sep.len();
        lemma_reads_split(text, p1, et, next_sep + next + close);
        let p2 = p1 + et.len();
        lemma_decode_entry(text, p1, entries, cty, k as int);
        lemma_entry_parts(
            text,
            p1,
            json_text(entries[k as int].0, kty),
            json_text(entries[k as int].1, vty),
        );
        lemma_reads_index(text, p1, et, 0);
        if k > 0 {
            lemma_reads_index(text, p, sep, 0);
            assert(text[p] == ',');
            assert(spec_consume_maybe(text, p, ',') == Ok::<int, DecodeError>(p1));
        } else {
            assert(text[p] == '{');
            assert(spec_consume_maybe(text, p, ',') == Ok::<int, DecodeError>(p1));
        }
        assert(text[p] != ']');
        let x = (strip(entries[k as int].0, kty), strip(entries[k as int].1, vty));
        assert(all[k as int] == x);
        lemma_insert_new_key(acc, all, x);
        assert(strip_entries(entries, kty, vty, k + 1) == acc.push(x));
        lemma_decode_map_entries(text, p2, entries, cty, k + 1);
    }
}

/// Decoding the text of a mapping gives the mapping, stripped.
pub proof fn lemma_decode_map(text: Seq<char>, p: int, v: ValueView, ty: TypeView)
    requires
        v is HashMap,
        ty is HashMap,
        valid_type(ty),
        conforms(v, ty),
        reads(text, p, json_text(v, ty)),
        ends_value(text, p + json_text(v, ty).len()),
    ensures
        decodes_to(text, p, v, ty),
    decreases v, 1nat,
{
    let entries = v->HashMap_0;
    let kty = *ty->HashMap_key;
    let vty = *ty->HashMap_value;
    let open = seq!['['];
    let close = seq![']'];
    if ty->HashMap_skip {
        assert(json_text(v, ty) =~= open + close);
        lemma_reads_split(text, p, open, close);
        lemma_reads_index(text, p, open, 0);
        lemma_reads_index(text, p + 1, close, 0);
        assert(json_text(v, ty)[0] == '[');
    } else {
        let body = entries_text(entries, kty, vty, 0);
        assert(json_text(v, ty) == open + body + close);
        assert(comma_before(0, entries.len()).len() == 0);
        assert(json_text(v, ty) =~= open + (comma_before(0, entries.len()) + body + close));
        lemma_reads_split(text, p, open, comma_before(0, entries.len()) + body + close);
        lemma_reads_index(text, p, open, 0);
        lemma_decode_map_entries(text, p + 1, entries, ty, 0);
        assert(comma_before(0, entries.len()) + body + close =~= body + close);
        lemma_reads_split(text, p + 1, body, close);
        lemma_reads_index(text, p + 1 + body.len(), close, 0);
        assert(json_text(v, ty)[0] == '[');
    }
}

/// Decoding the text of an optional value gives the optional value, stripped.
pub proof fn lemma_decode_option(text: Seq<char>, p: int, v: ValueView, ty: TypeView)
    requires
        v is Option,
        ty is Option,
        valid_type(ty),
        conforms(v, ty),
        reads(text, p, json_text(v, ty)),
        ends_value(text, p + json_text(v, ty).len()),
    ensures
        decodes_to(text, p, v, ty),
    decreases v, 1nat,
{
    let o = v->Option_0;
    let ety = *ty->Option_element;
    let open = seq!['['];
    let close = seq![']'];
    if ty->Option_skip || o is None {
        assert(json_text(v, ty) =~= open + close);
        lemma_reads_split(text, p, open, close);
        lemma_reads_index(text, p, open, 0);
        lemma_reads_index(text, p + 1, close, 0);
        assert(json_text(v, ty)[0] == '[');
    } else {
        let inner = *o->Some_0;
        let vt = json_text(inner, ety);
        assert(json_text(v, ty) == open + vt + close);
        assert(json_text(v, ty) =~= open + (vt + close));
        lemma_reads_split(text, p, open, vt + close);
        lemma_reads_index(text, p, open, 0);
        lemma_reads_split(text, p + 1, vt, close);
        lemma_reads_index(text, p + 1 + vt.len(), close, 0);
        assert(ends_value(text, p + 1 + vt.len()));
        lemma_decode_at(text, p + 1, inner, ety);
        lemma_reads_index(text, p + 1, vt, 0);
        assert(json_text(v, ty)[0] == '[');
    }
}

/// Encoding the fields of a conforming value from the `k`-th on meets no failure.
pub proof fn lemma_fields_encode(vals: Seq<ValueView>, fields: Seq<FieldView>, k: nat)
    requires
        vals.len() == fields.len(),
        valid_fields(fields),
        conforms_fields(vals, fields),
    ensures
        crate::json_text::fields_error(vals, fields, k) is None,
    decreases vals, vals.len() - k,
{
    if k < vals.len() {
        lemma_conforms_encodes(vals[k as int], fields[k as int].ty);
        lemma_fields_encode(vals, fields, k + 1);
    }
}

/// Encoding the elements of a conforming container from the `k`-th on meets no failure.
pub proof fn lemma_items_encode(items: Seq<ValueView>, ty: TypeView, k: nat)
    requires
        valid_type(ty),
        conforms_items(items, ty),
    ensures
        crate::json_text::items_error(items, ty, k) is None,
    decreases items, items.len() - k,
{
    if k < items.len() {
        lemma_conforms_encodes(items[k as int], ty);
        lemma_items_encode(items, ty, k + 1);
    }
}

/// Encoding the entries of a conforming mapping from the `k`-th on meets no failure.
pub proof fn lemma_entries_encode(
    entries: Seq<(ValueView, ValueView)>,
    key: TypeView,
    value: TypeView,
    k: nat,
)
    requires
        valid_type(key),
        valid_type(value),
        conforms_entries(entries, key, value),
    ensures
        crate::json_text::entries_error(entries, key, value, k) is None,
    decreases entries, entries.len() - k,
{
    if k < entries.len() {
        lemma_conforms_encodes(entries[k as int].0, key);
        lemma_conforms_encodes(entries[k as int].1, value);
        lemma_entries_encode(entries, key, value, k + 1);
    }
}

/// A value that conforms to a valid descriptor can be encoded.
pub proof fn lemma_conforms_encodes(v: ValueView, ty: TypeView)
    requires
        valid_type(ty),
        conforms(v, ty),
    ensures
        encode_error(v, ty) is None,
    decreases v, 1nat,
{
    match (v, ty) {
        (ValueView::Struct(vals), TypeView::Struct { fields, .. }) => {
            lemma_fields_encode(vals, fields, 0);
        },
        (ValueView::RustEnum(idx, vals), TypeView::RustEnum { variants, .. }) => {
            assert(valid_variants(variants));
            assert(valid_fields(variants[idx as int].fields));
            lemma_fields_encode(vals, variants[idx as int].fields, 0);
        },
        (ValueView::Vec(items), TypeView::Vec { element, skip, .. }) => {
            if !skip {
                lemma_items_encode(items, *element, 0);
            }
        },
        (ValueView::HashSet(items), TypeView::HashSet { element, skip, .. }) => {
            if !skip {
                lemma_items_encode(items, *element, 0);
            }
        },
        (ValueView::HashMap(entries), TypeView::HashMap { key, value, skip, .. }) => {
            if !skip {
                lemma_entries_encode(entries, *key, *value, 0);
            }
        },
        (ValueView::Option(o), TypeView::Option { element, skip, .. }) => {
            if !skip {
                match o {
                    None => {},
                    Some(inner) => {
                        lemma_conforms_encodes(*inner, *element);
                    },
                }
            }
        },
        (ValueView::Box(inner), TypeView::Box { inner: inner_ty }) => {
            lemma_conforms_encodes(*inner, *inner_ty);
        },
        _ => {},
    }
}

/// Where no field type holds a skipped container, stripping the first
/// `n` fields changes nothing.
pub proof fn lemma_strip_fields_same(vals: Seq<ValueView>, fields: Seq<FieldView>, n: nat)
    requires
        vals.len() == fields.len(),
        n <= vals.len(),
        no_skip_fields(fields),
        conforms_fields(vals, fields),
    ensures
        strip_fields(vals, fields, n) == vals.take(n as int),
    decreases vals, n,
{
    if n > 0 {
        lemma_strip_fields_same(vals, fields, (n - 1) as nat);
        lemma_strip_same(vals[n - 1], fields[n - 1].ty);
        assert(vals.take(n as int) =~= vals.take(n - 1).push(vals[n - 1]));
    } else {
        assert(vals.take(0) =~= Seq::<ValueView>::empty());
    }
}

/// Where the element type holds no skipped container, stripping the
/// first `n` elements changes nothing.
pub proof fn lemma_strip_items_same(items: Seq<ValueView>, ty: TypeView, n: nat)
    requires
        n <= items.len(),
        no_skip(ty),
        conforms_items(items, ty),
    ensures
        strip_items(items, ty, n) == items.take(n as int),
    decreases items, n,
{
    if n > 0 {
        lemma_strip_items_same(items, ty, (n - 1) as nat);
        lemma_strip_same(items[n - 1], ty);
        assert(items.take(n as int) =~= items.take(n - 1).push(items[n - 1]));
    } else {
        assert(items.take(0) =~= Seq::<ValueView>::empty());
    }
}

/// Where neither type holds a skipped container, stripping the first `n`
/// entries changes nothing.
pub proof fn lemma_strip_entries_same(
    entries: Seq<(ValueView, ValueView)>,
    key: TypeView,
    value: TypeView,
    n: nat,
)
    requires
        n <= entries.len(),
        no_skip(key),
        no_skip(value),
        conforms_entries(entries, key, value),
    ensures
        strip_entries(entries, key, value, n) == entries.take(n as int),
    decreases entries, n,
{
    if n > 0 {
        lemma_strip_entries_same(entries, key, value, (n - 1) as nat);
        lemma_strip_same(entries[n - 1].0, key);
        lemma_strip_same(entries[n - 1].1, value);
        assert(entries.take(n as int) =~= entries.take(n - 1).push(entries[n - 1]));
    } else {
        assert(entries.take(0) =~= Seq::<(ValueView, ValueView)>::empty());
    }
}

/// Where the descriptor holds no skipped container, stripping a
/// conforming value changes nothing.
pub proof fn lemma_strip_same(v: ValueView, ty: TypeView)
    requires
        no_skip(ty),
        conforms(v, ty),
    ensures
        strip(v, ty) == v,
    decreases v, 1nat,
{
    match (v, ty) {
        (ValueView::Struct(vals), TypeView::Struct { fields, .. }) => {
            lemma_strip_fields_same(vals, fields, vals.len());
            assert(vals.take(vals.len() as int) =~= vals);
        },
        (ValueView::RustEnum(idx, vals), TypeView::RustEnum { variants, .. }) => {
            assert(no_skip_fields(variants[idx as int].fields));
            lemma_strip_fields_same(vals, variants[idx as int].fields, vals.len());
            assert(vals.take(vals.len() as int) =~= vals);
        },
        (ValueView::Vec(items), TypeView::Vec { element, .. }) => {
            lemma_strip_items_same(items, *element, items.len());
            assert(items.take(items.len() as int) =~= items);
        },
        (ValueView::HashSet(items), TypeView::HashSet { element, .. }) => {
            lemma_strip_items_same(items, *element, items.len());
            assert(items.take(items.len() as int) =~= items);
        },
        (ValueView::HashMap(entries), TypeView::HashMap { key, value, .. }) => {
            lemma_strip_entries_same(entries, *key, *value, entries.len());
            assert(entries.take(entries.len() as int) =~= entries);
        },
        (ValueView::Option(o), TypeView::Option { element, .. }) => {
            match o {
                None => {},
                Some(inner) => {
                    lemma_strip_same(*inner, *element);
                },
            }
        },
        (ValueView::Box(inner), TypeView::Box { inner: inner_ty }) => {
            lemma_strip_same(*inner, *inner_ty);
        },
        _ => {},
    }
}

/// Skip semantics. A value that conforms to a valid descriptor can be
/// encoded, and decoding its text gives the value with every skipped
/// container emptied, whatever the container held; the whole text is read.
pub proof fn law_decode_encoded(v: ValueView, ty: TypeView)
    requires
        valid_type(ty),
        conforms(v, ty),
    ensures
        encode_error(v, ty) is None,
        parse_value(json_text(v, ty), 0, ty) == Ok::<(ValueView, int), DecodeError>(
            (strip(v, ty), json_text(v, ty).len() as int),
        ),
{
    let text = json_text(v, ty);
    lemma_conforms_encodes(v, ty);
    assert(text.subrange(0, text.len() as int) =~= text);
    lemma_decode_at(text, 0, v, ty);
}

/// Round trip. Where the descriptor holds no skipped container, decoding
/// the text of a conforming value gives the value itself.
pub proof fn law_round_trip(v: ValueView, ty: TypeView)
    requires
        valid_type(ty),
        no_skip(ty),
        conforms(v, ty),
    ensures
        encode_error(v, ty) is None,
        parse_value(json_text(v, ty), 0, ty) == Ok::<(ValueView, int), DecodeError>(
            (v, json_text(v, ty).len() as int),
        ),
{
    law_decode_encoded(v, ty);
    lemma_strip_same(v, ty);
}

/// A tagged union whose text names a variant that the descriptor lacks
/// is not decoded: there is no fallback to another variant.
pub proof fn law_unknown_variant(text: Seq<char>, p: int, ty: TypeView, name: Seq<char>)
    requires
        ty is RustEnum,
        spec_consume_char(text, p, '{') is Ok,
        spec_consume_field(text, p + 1, variant_key()) is Ok,
        spec_consume_string(text, spec_consume_field(text, p + 1, variant_key())->Ok_0) is Ok,
        spec_consume_string(text, spec_consume_field(text, p + 1, variant_key())->Ok_0)->Ok_0.0
            == name,
        forall|i: int|
            0 <= i < ty->RustEnum_variants.len() ==> (#[trigger] ty->RustEnum_variants[i]).name
                != name,
    ensures
        parse_value(text, p, ty) == Err::<(ValueView, int), DecodeError>(
            DecodeError::UnknownVariant,
        ),
{
    let variants = ty->RustEnum_variants;
    crate::decode::lemma_find_variant(variants, name, 0);
    let found = find_variant(variants, name, 0);
    if found < variants.len() {
        assert(variants[found].name == name);
    }
}

} // verus!
