//! What building the JSON forms of an enum's variants reports, where the
//! arguments of the enum and its variants give no template. The forms
//! themselves take no part in the output: the enum's conversion is left to
//! the generated match, and only the errors are kept.
use vstd::prelude::*;
use crate::syn_generic::tokens::{Span, TokenTree};
use crate::syn_generic::{ErrorCollector, ParseErrorKind, errs};
use crate::json_item::{
    MakeContextOfEnum, MakeEnumVariant, StructField, StructToDefault, StructFieldToKvsDefault,
    StructFieldToItemsDefault, FieldName, TagMode, inherited,
};
use crate::struct_json::{
    object_errors, array_errors, transparent_errors, field_kvs_errors, field_items_errors, push_msg, name_span,
    find_only_field,
};

verus! {

/// An enum whose arguments, and those of its variants, give no template.
pub open spec fn plain_enum(e: MakeContextOfEnum) -> bool {
    &&& e.to is None
    &&& e.to_untagged is None
    &&& e.to_tagged_kvs is None
    &&& forall|i: int| 0 <= i < e.variants@.len() ==> plain_variant(#[trigger] e.variants@[i])
}

/// A variant whose arguments give no template.
pub open spec fn plain_variant(v: MakeEnumVariant) -> bool {
    &&& v.to is None
    &&& v.to_untagged is None
    &&& v.to_tagged_kvs is None
}

/// The error of a variant written with a tag where neither it nor its enum
/// gives one.
pub open spec fn tag_not_defined_error(span: Span) -> ParseErrorKind {
    ParseErrorKind::Custom { msg: "@tag not defined on enum variant", span: Some(span) }
}

/// Whether a variant's fields are all renamed, by the variant or its enum.
pub open spec fn fields_renamed(e: MakeContextOfEnum, v: MakeEnumVariant) -> bool {
    v.rename_fields is Some || e.rename_fields is Some
}

/// The errors of a variant's value without a tag, as a struct's: at the
/// place of its name.
pub open spec fn variant_untagged_errors(e: MakeContextOfEnum, v: MakeEnumVariant) -> Seq<ParseErrorKind> {
    match v.to_untagged_unspecified {
        StructToDefault::Unit => Seq::empty(),
        StructToDefault::Object => object_errors(fields_renamed(e, v), v.fields@),
        StructToDefault::Array => array_errors(v.fields@),
        StructToDefault::Transparent { .. } => transparent_errors(v.fields@, v.name.span),
    }
}

/// The errors of a variant's entries after its tag.
pub open spec fn variant_tagged_kvs_errors(e: MakeContextOfEnum, v: MakeEnumVariant) -> Seq<ParseErrorKind> {
    match v.to_untagged_unspecified {
        StructToDefault::Unit => Seq::empty(),
        StructToDefault::Object | StructToDefault::Array => object_errors(fields_renamed(e, v), v.fields@),
        StructToDefault::Transparent { .. } => transparent_errors(v.fields@, v.name.span),
    }
}

/// The errors of the JSON form of variant `i` in its tag mode: none for
/// the tag alone; those of its value, without a tag or under its name;
/// a missing tag, then those of its entries, when the tag is inside; a
/// missing tag when the tag is beside the content.
pub open spec fn variant_json_errors(e: MakeContextOfEnum, i: int) -> Seq<ParseErrorKind> {
    let v = e.variants@[i];
    let tag_err = if inherited(v.tag, e.tag) is None {
        seq![tag_not_defined_error(v.name.span)]
    } else {
        Seq::empty()
    };
    match e.inferred_tag_mode_spec(i).mode {
        TagMode::TagOnly => Seq::empty(),
        TagMode::Untagged | TagMode::ExternallyTagged => variant_untagged_errors(e, v),
        TagMode::InternallyTagged => tag_err + variant_tagged_kvs_errors(e, v),
        TagMode::AdjacentlyTagged => tag_err,
    }
}

/// The errors of the first `n` variants, in order.
pub open spec fn enum_json_errors(e: MakeContextOfEnum, n: int) -> Seq<ParseErrorKind>
    decreases n,
{
    if n <= 0 {
        Seq::empty()
    } else {
        enum_json_errors(e, n - 1) + variant_json_errors(e, n - 1)
    }
}

/// Reports the errors of the entries of the fields not skipped.
fn report_object_errors(all_renamed: bool, fields: &Vec<StructField>, errors: &mut ErrorCollector)
    ensures
        errs(*final(errors)) == errs(*old(errors)) + object_errors(all_renamed, fields@),
{
    let mut i: usize = 0;
    assert(errs(*errors) =~= errs(*old(errors)) + object_errors(all_renamed, fields@.subrange(0, 0)));
    while i < fields.len()
        invariant
            i <= fields@.len(),
            errs(*errors) == errs(*old(errors)) + object_errors(all_renamed, fields@.subrange(0, i as int)),
        decreases fields@.len() - i,
    {
        let ghost e0 = errs(*errors);
        let f = &fields[i];
        assert(fields@.subrange(0, i + 1).drop_last() =~= fields@.subrange(0, i as int));
        if f.skip.is_none() {
            let ns = name_span(&f.name);
            match (&f.to_kvs_default, &f.name) {
                (StructFieldToKvsDefault::BracedNameEqTo, FieldName::Index(_)) => {
                    if f.rename.is_none() && !all_renamed {
                        push_msg(errors, "unnamed field doesn't have `@name` unless renamed", ns);
                    }
                },
                (StructFieldToKvsDefault::Flatten { .. }, FieldName::Index(_)) => {
                    push_msg(
                        errors,
                        "@to_kvs must be explicitly specified on flattened unnamed field to avoid ambiguity",
                        ns,
                    );
                },
                _ => {},
            }
            assert(errs(*errors) =~= e0 + field_kvs_errors(all_renamed, *f));
        } else {
            assert(errs(*errors) =~= e0 + Seq::<ParseErrorKind>::empty());
        }
        i = i + 1;
        assert(errs(*errors) =~= errs(*old(errors)) + object_errors(all_renamed, fields@.subrange(0, i as int)));
    }
    assert(fields@.subrange(0, i as int) =~= fields@);
}

/// Reports the errors of the items of the fields not skipped.
fn report_array_errors(fields: &Vec<StructField>, errors: &mut ErrorCollector)
    ensures
        errs(*final(errors)) == errs(*old(errors)) + array_errors(fields@),
{
    let mut i: usize = 0;
    assert(errs(*errors) =~= errs(*old(errors)) + array_errors(fields@.subrange(0, 0)));
    while i < fields.len()
        invariant
            i <= fields@.len(),
            errs(*errors) == errs(*old(errors)) + array_errors(fields@.subrange(0, i as int)),
        decreases fields@.len() - i,
    {
        let ghost e0 = errs(*errors);
        let f = &fields[i];
        assert(fields@.subrange(0, i + 1).drop_last() =~= fields@.subrange(0, i as int));
        if f.skip.is_none() {
            match (&f.to_items_default, &f.name) {
                (StructFieldToItemsDefault::Flatten { .. }, FieldName::Named(_)) => {
                    push_msg(
                        errors,
                        "@to_items must be explicitly specified on flattened named field to avoid ambiguity",
                        name_span(&f.name),
                    );
                },
                _ => {},
            }
            assert(errs(*errors) =~= e0 + field_items_errors(*f));
        } else {
            assert(errs(*errors) =~= e0 + Seq::<ParseErrorKind>::empty());
        }
        i = i + 1;
        assert(errs(*errors) =~= errs(*old(errors)) + array_errors(fields@.subrange(0, i as int)));
    }
    assert(fields@.subrange(0, i as int) =~= fields@);
}

/// Reports the error of a transparent value without exactly one field not
/// skipped, at `s`.
fn report_transparent_errors(fields: &Vec<StructField>, s: Span, errors: &mut ErrorCollector)
    ensures
        errs(*final(errors)) == errs(*old(errors)) + transparent_errors(fields@, s),
{
    let ghost e0 = errs(*errors);
    let (idx, many) = find_only_field(fields);
    match idx {
        Some(_) => {
            if many {
                push_msg(
                    errors,
                    "`@field` is ambiguous when there are more than one fields without `#[cjson(skip)]`",
                    s,
                );
            }
        },
        None => {
            push_msg(errors, "`@field` requires exactly one field without `#[cjson(skip)]`", s);
        },
    }
    assert(errs(*errors) =~= e0 + transparent_errors(fields@, s));
}

impl MakeContextOfEnum {
    /// Whether the arguments of the enum and its variants give no template.
    pub fn is_plain(&self) -> (r: bool)
        ensures
            r == plain_enum(*self),
    {
        if self.to.is_some() || self.to_untagged.is_some() || self.to_tagged_kvs.is_some() {
            return false;
        }
        let mut i: usize = 0;
        while i < self.variants.len()
            invariant
                i <= self.variants@.len(),
                forall|j: int| 0 <= j < i ==> plain_variant(#[trigger] self.variants@[j]),
            decreases self.variants@.len() - i,
        {
            let v = &self.variants[i];
            if v.to.is_some() || v.to_untagged.is_some() || v.to_tagged_kvs.is_some() {
                return false;
            }
            i = i + 1;
        }
        true
    }

    /// Reports the errors of the JSON form of variant `i`.
    fn report_variant_errors(&self, i: usize, errors: &mut ErrorCollector)
        requires
            i < self.variants@.len(),
        ensures
            errs(*final(errors)) == errs(*old(errors)) + variant_json_errors(*self, i as int),
    {
        let ghost e0 = errs(*errors);
        let mode = self.access_inferred_tag_mode(i);
        assert(mode == self.inferred_tag_mode_spec(i as int));
        let v = &self.variants[i];
        let vs = v.name.span;
        let renamed = v.rename_fields.is_some() || self.rename_fields.is_some();
        let tag_missing = v.tag.is_none() && self.tag.is_none();
        match mode.mode {
            TagMode::TagOnly => {
                assert(errs(*errors) =~= e0 + variant_json_errors(*self, i as int));
            },
            TagMode::Untagged | TagMode::ExternallyTagged => {
                match v.to_untagged_unspecified {
                    StructToDefault::Unit => {
                        assert(errs(*errors) =~= e0 + variant_json_errors(*self, i as int));
                    },
                    StructToDefault::Object => report_object_errors(renamed, &v.fields, errors),
                    StructToDefault::Array => report_array_errors(&v.fields, errors),
                    StructToDefault::Transparent { .. } => report_transparent_errors(&v.fields, vs, errors),
                }
            },
            TagMode::InternallyTagged => {
                if tag_missing {
                    push_msg(errors, "@tag not defined on enum variant", vs);
                }
                let ghost e1 = errs(*errors);
                match v.to_untagged_unspecified {
                    StructToDefault::Unit => {},
                    StructToDefault::Object | StructToDefault::Array => report_object_errors(renamed, &v.fields, errors),
                    StructToDefault::Transparent { .. } => report_transparent_errors(&v.fields, vs, errors),
                }
                assert(errs(*errors) =~= e0 + variant_json_errors(*self, i as int));
            },
            TagMode::AdjacentlyTagged => {
                if tag_missing {
                    push_msg(errors, "@tag not defined on enum variant", vs);
                }
                assert(errs(*errors) =~= e0 + variant_json_errors(*self, i as int));
            },
        }
    }

    /// The JSON form of the enum where the arguments of the enum and its
    /// variants give no template: no tokens, as the conversion is left to
    /// the generated match, with the errors that building each variant's
    /// form in its tag mode reports, variant by variant. Where a template
    /// is given, nothing is built here and `None` comes back.
    pub fn into_to_json(self, errors: &mut ErrorCollector) -> (r: Option<Vec<TokenTree>>)
        ensures
            r is Some <==> plain_enum(self),
            r matches Some(ts) ==> ts@.len() == 0,
            plain_enum(self) ==> errs(*final(errors)) == errs(*old(errors)) + enum_json_errors(
                self,
                self.variants@.len() as int,
            ),
            !plain_enum(self) ==> *final(errors) == *old(errors),
    {
        self.json_tokens(errors)
    }

    /// The JSON form of the enum as `into_to_json` builds it, leaving the
    /// enum in place.
    pub fn json_tokens(&self, errors: &mut ErrorCollector) -> (r: Option<Vec<TokenTree>>)
        ensures
            r is Some <==> plain_enum(*self),
            r matches Some(ts) ==> ts@.len() == 0,
            plain_enum(*self) ==> errs(*final(errors)) == errs(*old(errors)) + enum_json_errors(
                *self,
                self.variants@.len() as int,
            ),
            !plain_enum(*self) ==> *final(errors) == *old(errors),
    {
        if !self.is_plain() {
            return None;
        }
        let mut i: usize = 0;
        assert(errs(*errors) =~= errs(*old(errors)) + enum_json_errors(*self, 0));
        while i < self.variants.len()
            invariant
                i <= self.variants@.len(),
                errs(*errors) == errs(*old(errors)) + enum_json_errors(*self, i as int),
            decreases self.variants@.len() - i,
        {
            self.report_variant_errors(i, errors);
            i = i + 1;
            assert(errs(*errors) =~= errs(*old(errors)) + enum_json_errors(*self, i as int));
        }
        Some(Vec::new())
    }
}

} // verus!
