//! The JSON codec: text from a value and its descriptor, and a value from
//! a text and a descriptor.

use vstd::prelude::*;
use crate::decode::{deserialize_field, grown};
use crate::descriptor::{
    FieldView,
    Type,
    field_views,
    lemma_field_views,
    lemma_variant_field_views,
    lemma_variant_views,
    variant_field_views,
};
use crate::encode::{
    comma_before,
    encode_bool,
    encode_map_value,
    encode_option,
    encode_set_value,
    encode_value,
    encode_vec,
    push_escaped,
    push_key,
    push_variant_name,
};
use crate::error::{DecodeError, ReflectError};
use crate::json_parse::parse_value;
use crate::json_text::{
    encode_error,
    fields_error,
    fields_text,
    json_text,
    key_text,
    quoted,
    variant_key,
};
use crate::number::push_int;
use crate::parser::JsonWalker;
use crate::reflections::{
    FieldReflection,
    RustEnumReflection,
    StructReflection,
    ValueReflection,
    field_values,
    lemma_field_values,
    refl_type,
    refl_value,
    refl_wf,
};
use crate::text::{push_str, string_of};
use crate::value::Value;

verus! {

/// The text of a value under its descriptor.
///
/// Fails where the value does not have the described shape (`Mismatch`)
/// or a container that is not marked to be skipped has the table of a
/// skipped one (`NotSupported`).
pub fn encode(value: &Value, ty: &Type) -> (r: Result<String, ReflectError>)
    ensures
        match encode_error(value@, ty@) {
            None => r is Ok && r->Ok_0@ == json_text(value@, ty@),
            Some(e) => r == Err::<String, ReflectError>(e),
        },
{
    let mut out: Vec<char> = Vec::new();
    match encode_value(value, ty, &mut out) {
        Err(e) => Err(e),
        Ok(()) => {
            assert(out@ =~= json_text(value@, ty@));
            Ok(string_of(&out))
        },
    }
}

/// The value of a descriptor that a text starts with. What follows the
/// value in the text is not looked at.
pub fn from_json(s: &str, ty: &Type) -> (r: Result<Value, DecodeError>)
    ensures
        match parse_value(s@, 0, ty@) {
            Ok((v, _)) => r is Ok && r->Ok_0@ == v,
            Err(e) => r == Err::<Value, DecodeError>(e),
        },
        grown(r),
{
    let mut walker: JsonWalker = JsonWalker::new(s);
    deserialize_field(&mut walker, ty)
}

/// Whether an encoder's result and what it wrote are what is owed for a
/// value under a descriptor.
pub open spec fn encoded(
    r: Result<(), ReflectError>,
    before: Seq<char>,
    after: Seq<char>,
    v: crate::value::ValueView,
    ty: crate::descriptor::TypeView,
) -> bool {
    match encode_error(v, ty) {
        None => r is Ok && after == before + json_text(v, ty),
        Some(e) => r == Err::<(), ReflectError>(e),
    }
}

/// Appends the fields that a list of field views shows, each with its key.
#[verifier::loop_isolation(false)]
fn encode_view_fields(
    fields: &Vec<FieldReflection>,
    Ghost(fv): Ghost<Seq<FieldView>>,
    out: &mut Vec<char>,
) -> (r: Result<(), ReflectError>)
    requires
        fields@.len() == fv.len(),
        forall|i: int|
            0 <= i < fields@.len() ==> (#[trigger] fields@[i]).name@ == fv[i].name && refl_type(
                fields@[i].value,
            ) == fv[i].ty && refl_wf(fields@[i].value),
    ensures
        match fields_error(field_values(fields@, fields@.len()), fv, 0) {
            None => r is Ok && final(out)@ == old(out)@ + fields_text(
                field_values(fields@, fields@.len()),
                fv,
                0,
            ),
            Some(e) => r == Err::<(), ReflectError>(e),
        },
    decreases fields, 0nat,
{
    let ghost vv = field_values(fields@, fields@.len());
    let ghost full = old(out)@ + fields_text(vv, fv, 0);
    let n: usize = fields.len();
    proof {
        lemma_field_values(fields@, fields@.len());
        assert(old(out)@ + comma_before(0, n as nat) + fields_text(vv, fv, 0) =~= full);
    }
    let mut i: usize = 0;
    while i < n
        invariant
            i <= n,
            fields_error(vv, fv, 0) == fields_error(vv, fv, i as nat),
            full == out@ + comma_before(i as nat, n as nat) + fields_text(vv, fv, i as nat),
        decreases n - i,
    {
        if i > 0 {
            out.push(',');
        }
        push_key(out, fields[i].name);
        let ghost mid = out@;
        match encode_view(&fields[i].value, out) {
            Err(e) => {
                return Err(e);
            },
            Ok(()) => {},
        }
        proof {
            assert(vv[i as int] == refl_value(fields@[i as int].value));
            let here = key_text(fv[i as int].name) + json_text(vv[i as int], fv[i as int].ty);
            assert(out@ =~= mid + json_text(vv[i as int], fv[i as int].ty));
            assert(fields_text(vv, fv, i as nat) =~= here + comma_before((i + 1) as nat, n as nat)
                + fields_text(vv, fv, (i + 1) as nat));
            assert(full =~= out@ + comma_before((i + 1) as nat, n as nat) + fields_text(
                vv,
                fv,
                (i + 1) as nat,
            ));
        }
        i += 1;
    }
    proof {
        assert(full =~= out@);
    }
    Ok(())
}

/// Appends the text of the struct that a view shows.
fn encode_struct_view(s: &StructReflection, out: &mut Vec<char>) -> (r: Result<(), ReflectError>)
    requires
        refl_wf(ValueReflection::Struct(Box::new(*s))),
    ensures
        encoded(
            r,
            old(out)@,
            final(out)@,
            refl_value(ValueReflection::Struct(Box::new(*s))),
            refl_type(ValueReflection::Struct(Box::new(*s))),
        ),
    decreases s, 1nat,
{
    let ghost fv = field_views(s.mirror.fields@, s.mirror.fields@.len());
    proof {
        lemma_field_views(s.mirror.fields@, s.mirror.fields@.len());
        lemma_field_values(s.fields@, s.fields@.len());
        assert forall|i: int| 0 <= i < s.fields@.len() implies (#[trigger] s.fields@[i]).name@
            == fv[i].name && refl_type(s.fields@[i].value) == fv[i].ty && refl_wf(
            s.fields@[i].value,
        ) by {
            assert(fv[i] == s.mirror.fields@[i]@);
        }
    }
    out.push('{');
    match encode_view_fields(&s.fields, Ghost(fv), out) {
        Err(e) => {
            return Err(e);
        },
        Ok(()) => {},
    }
    out.push('}');
    assert(final(out)@ =~= old(out)@ + (seq!['{'] + fields_text(
        field_values(s.fields@, s.fields@.len()),
        fv,
        0,
    ) + seq!['}']));
    Ok(())
}

/// Appends the text of the tagged union that a view shows.
fn encode_enum_view(e: &RustEnumReflection, out: &mut Vec<char>) -> (r: Result<(), ReflectError>)
    requires
        refl_wf(ValueReflection::RustEnum(*e)),
    ensures
        encoded(
            r,
            old(out)@,
            final(out)@,
            refl_value(ValueReflection::RustEnum(*e)),
            refl_type(ValueReflection::RustEnum(*e)),
        ),
    decreases e, 1nat,
{
    let ghost variant = e.mirror.variants@[e.variant_idx as int];
    let ghost fv = variant_field_views(variant.fields@, variant.fields@.len());
    proof {
        lemma_variant_views(e.mirror.variants@, e.mirror.variants@.len());
        lemma_variant_field_views(variant.fields@, variant.fields@.len());
        lemma_field_values(e.fields@, e.fields@.len());
        assert forall|i: int| 0 <= i < e.fields@.len() implies (#[trigger] e.fields@[i]).name@
            == fv[i].name && refl_type(e.fields@[i].value) == fv[i].ty && refl_wf(
            e.fields@[i].value,
        ) by {}
    }
    push_variant_name(out, e.variant_name);
    let ghost mid = out@;
    if e.fields.len() > 0 {
        out.push(',');
        match encode_view_fields(&e.fields, Ghost(fv), out) {
            Err(e) => {
                return Err(e);
            },
            Ok(()) => {},
        }
    }
    let ghost tail = if e.fields@.len() > 0 {
        seq![','] + fields_text(field_values(e.fields@, e.fields@.len()), fv, 0)
    } else {
        Seq::<char>::empty()
    };
    assert(out@ =~= mid + tail);
    out.push('}');
    assert(final(out)@ =~= old(out)@ + (seq!['{'] + key_text(variant_key()) + quoted(
        e.variant_name@,
    ) + tail + seq!['}']));
    Ok(())
}

/// Appends the text of the value that a view shows.
fn encode_view(vr: &ValueReflection, out: &mut Vec<char>) -> (r: Result<(), ReflectError>)
    requires
        refl_wf(*vr),
    ensures
        encoded(r, old(out)@, final(out)@, refl_value(*vr), refl_type(*vr)),
    decreases vr, 0nat,
{
    match vr {
        ValueReflection::I32(x) => {
            push_int(out, *x.deref() as i128);
            Ok(())
        },
        ValueReflection::U32(x) => {
            push_int(out, *x.deref() as i128);
            Ok(())
        },
        ValueReflection::I64(x) => {
            push_int(out, *x.deref() as i128);
            Ok(())
        },
        ValueReflection::U64(x) => {
            push_int(out, *x.deref() as i128);
            Ok(())
        },
        ValueReflection::ISize(x) => {
            push_int(out, *x.deref() as i128);
            Ok(())
        },
        ValueReflection::USize(x) => {
            push_int(out, *x.deref() as i128);
            Ok(())
        },
        ValueReflection::F32(x) => {
            push_str(out, x.deref().as_str());
            Ok(())
        },
        ValueReflection::F64(x) => {
            push_str(out, x.deref().as_str());
            Ok(())
        },
        ValueReflection::Bool(x) => {
            encode_bool(*x.deref(), out);
            Ok(())
        },
        ValueReflection::String(x) => {
            push_escaped(out, x.deref().as_str());
            Ok(())
        },
        ValueReflection::CEnum(c) => {
            push_int(out, *c.val.deref() as i128);
            Ok(())
        },
        ValueReflection::Struct(s) => encode_struct_view(s, out),
        ValueReflection::RustEnum(e) => encode_enum_view(e, out),
        ValueReflection::Vec(v) => encode_vec(v.store.deref(), v.mirror, out),
        ValueReflection::HashMap(m) => encode_map_value(m.entries.deref(), m.mirror, out),
        ValueReflection::HashSet(h) => encode_set_value(h.items, h.mirror, out),
        ValueReflection::Option(o) => encode_option(o.slot.deref(), o.mirror, out),
        ValueReflection::Box(b) => encode_view(&b.inner, out),
    }
}

/// The text of the value that a view shows, under the view's descriptor.
///
/// Fails where a container in the view holds what its descriptor does
/// not describe (`Mismatch`), or is not marked to be skipped and has the
/// table of a skipped one (`NotSupported`).
pub fn value_to_json(vr: &ValueReflection) -> (r: Result<String, ReflectError>)
    requires
        refl_wf(*vr),
    ensures
        match encode_error(refl_value(*vr), refl_type(*vr)) {
            None => r is Ok && r->Ok_0@ == json_text(refl_value(*vr), refl_type(*vr)),
            Some(e) => r == Err::<String, ReflectError>(e),
        },
{
    let mut out: Vec<char> = Vec::new();
    match encode_view(vr, &mut out) {
        Err(e) => Err(e),
        Ok(()) => {
            assert(out@ =~= json_text(refl_value(*vr), refl_type(*vr)));
            Ok(string_of(&out))
        },
    }
}

impl<'a> ValueReflection<'a> {
    /// The text of the value that the view shows.
    pub fn to_json(&self) -> (r: Result<String, ReflectError>)
        requires
            refl_wf(*self),
        ensures
            match encode_error(refl_value(*self), refl_type(*self)) {
                None => r is Ok && r->Ok_0@ == json_text(refl_value(*self), refl_type(*self)),
                Some(e) => r == Err::<String, ReflectError>(e),
            },
    {
        value_to_json(self)
    }
}

impl<'a> StructReflection<'a> {
    /// The text of the struct that the view shows.
    pub fn to_json(&self) -> (r: Result<String, ReflectError>)
        requires
            refl_wf(ValueReflection::Struct(Box::new(*self))),
        ensures
            match encode_error(
                refl_value(ValueReflection::Struct(Box::new(*self))),
                refl_type(ValueReflection::Struct(Box::new(*self))),
            ) {
                None => r is Ok && r->Ok_0@ == json_text(
                    refl_value(ValueReflection::Struct(Box::new(*self))),
                    refl_type(ValueReflection::Struct(Box::new(*self))),
                ),
                Some(e) => r == Err::<String, ReflectError>(e),
            },
    {
        let mut out: Vec<char> = Vec::new();
        match encode_struct_view(self, &mut out) {
            Err(e) => Err(e),
            Ok(()) => {
                assert(out@ =~= json_text(
                    refl_value(ValueReflection::Struct(Box::new(*self))),
                    refl_type(ValueReflection::Struct(Box::new(*self))),
                ));
                Ok(string_of(&out))
            },
        }
    }

    /// The text of the struct that the view shows.
    pub fn to_json_string(&self) -> (r: Result<String, ReflectError>)
        requires
            refl_wf(ValueReflection::Struct(Box::new(*self))),
        ensures
            match encode_error(
                refl_value(ValueReflection::Struct(Box::new(*self))),
                refl_type(ValueReflection::Struct(Box::new(*self))),
            ) {
                None => r is Ok && r->Ok_0@ == json_text(
                    refl_value(ValueReflection::Struct(Box::new(*self))),
                    refl_type(ValueReflection::Struct(Box::new(*self))),
                ),
                Some(e) => r == Err::<String, ReflectError>(e),
            },
    {
        self.to_json()
    }
}

} // verus!
