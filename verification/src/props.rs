//! What a property path of a template asks for: `@name`, `@(to.tagged_default)`,
//! `@(field.to_kvs.default)` and the rest. Each kind of context (a struct,
//! an enum variant, a field) reads the path, reports the properties it does
//! not define, and names the expansion to make.
use vstd::prelude::*;
use crate::syn_generic::tokens::Span;
use crate::syn_generic::{ErrorCollector, ParseErrorKind, errs};
use crate::expand_props::{Prop, PropPath};
use vstd::string::StringSliceAdditionalSpecFns;
use crate::json_item::Field;

verus! {

/// Where a property stands.
pub open spec fn prop_span(p: Prop) -> Span {
    match p {
        Prop::Ident(i) => i.span,
        Prop::Literal(l) => l.span,
    }
}

/// The property is the identifier `name`.
pub open spec fn prop_is(p: Prop, name: &str) -> bool {
    p matches Prop::Ident(i) && i.name@ == name.spec_bytes()
}

/// A message at the place of a property.
pub open spec fn error_at(msg: &'static str, p: Prop) -> ParseErrorKind {
    ParseErrorKind::Custom { msg, span: Some(prop_span(p)) }
}

/// The error for properties that follow one that takes none: one, at the
/// first of them, if there are any.
pub open spec fn rest_errors(rest: Seq<Prop>, msg: &'static str) -> Seq<ParseErrorKind> {
    if rest.len() > 0 {
        seq![error_at(msg, rest[0])]
    } else {
        Seq::empty()
    }
}

/// Reports, at the first property from `from` on, that it is not defined.
fn report_rest(rest: &Vec<Prop>, from: usize, msg: &'static str, errors: &mut ErrorCollector)
    requires
        from <= rest@.len(),
    ensures
        errs(*final(errors)) == errs(*old(errors)) + rest_errors(rest@.subrange(from as int, rest@.len() as int), msg),
{
    let ghost tail = rest@.subrange(from as int, rest@.len() as int);
    if from < rest.len() {
        let span = rest[from].span();
        errors.push_custom(msg, Some(span));
        assert(tail[0] == rest@[from as int]);
        assert(rest_errors(tail, msg) =~= seq![error_at(msg, tail[0])]);
    } else {
        assert(errs(*errors) + rest_errors(tail, msg) =~= errs(*errors));
    }
}

/// Whether the property is the identifier `name`.
pub fn is_named(p: &Prop, name: &str) -> (r: bool)
    ensures
        r == prop_is(*p, name),
{
    match p {
        Prop::Ident(i) => i.matches(name.as_bytes()),
        Prop::Literal(_) => false,
    }
}

/// What a property path on a struct asks for, with the place of the
/// property that names it.
pub enum StructProp {
    /// `@name`
    Name(Span),
    /// `@self` with the properties after it.
    SelfValue(Span, Vec<Prop>),
    /// `@tag`
    Tag(Span),
    /// `@to`
    To(Span),
    /// `@(to.untagged_default)`
    ToUntaggedDefault(Span),
    /// `@(to.tagged_default)`
    ToTaggedDefault(Span),
}

/// What `@to` followed by `rest` asks for on a struct.
pub open spec fn struct_to(span: Span, rest: Seq<Prop>) -> StructProp {
    if rest.len() > 0 && prop_is(rest[0], "untagged_default") {
        StructProp::ToUntaggedDefault(prop_span(rest[0]))
    } else if rest.len() > 0 && prop_is(rest[0], "tagged_default") {
        StructProp::ToTaggedDefault(prop_span(rest[0]))
    } else {
        StructProp::To(span)
    }
}

/// The errors of `@to` followed by `rest` on a struct.
pub open spec fn struct_to_errors(rest: Seq<Prop>) -> Seq<ParseErrorKind> {
    if rest.len() == 0 {
        Seq::empty()
    } else if prop_is(rest[0], "untagged_default") {
        rest_errors(rest.drop_first(), "property not defined on struct @(to.untagged_default)")
    } else if prop_is(rest[0], "tagged_default") {
        rest_errors(rest.drop_first(), "property not defined on struct @(to.tagged_default)")
    } else {
        seq![error_at("property not defined on struct @to", rest[0])]
    }
}

/// What a property path on a struct asks for: nothing when its first
/// property is not one that structs define.
pub open spec fn struct_prop_is(r: Option<StructProp>, first: Prop, rest: Seq<Prop>) -> bool {
    if prop_is(first, "name") {
        r == Some(StructProp::Name(prop_span(first)))
    } else if prop_is(first, "self") {
        r matches Some(StructProp::SelfValue(s, v)) && s == prop_span(first) && v@ == rest
    } else if prop_is(first, "tag") {
        r == Some(StructProp::Tag(prop_span(first)))
    } else if prop_is(first, "to") {
        r == Some(struct_to(prop_span(first), rest))
    } else {
        r is None
    }
}

/// The errors that reading a property path on a struct reports.
pub open spec fn struct_prop_errors(first: Prop, rest: Seq<Prop>) -> Seq<ParseErrorKind> {
    if prop_is(first, "name") {
        rest_errors(rest, "property not defined on struct @name")
    } else if prop_is(first, "self") {
        Seq::empty()
    } else if prop_is(first, "tag") {
        rest_errors(rest, "property not defined on struct @tag")
    } else if prop_is(first, "to") {
        struct_to_errors(rest)
    } else {
        seq![error_at("property not defined on struct", first)]
    }
}

/// Reads a property path on a struct: `@name`, `@self..`, `@tag`, `@to`,
/// `@(to.untagged_default)` or `@(to.tagged_default)`. A property that the
/// struct does not define is reported; after one that takes no more, the
/// first extra property is reported and the rest is left out.
pub fn struct_prop(prop: PropPath, errors: &mut ErrorCollector) -> (r: Option<StructProp>)
    ensures
        struct_prop_is(r, prop.0, prop.1@),
        errs(*final(errors)) == errs(*old(errors)) + struct_prop_errors(prop.0, prop.1@),
{
    let PropPath(first, rest) = prop;
    let span = first.span();
    if is_named(&first, "name") {
        report_rest(&rest, 0, "property not defined on struct @name", errors);
        assert(rest@.subrange(0, rest@.len() as int) =~= rest@);
        Some(StructProp::Name(span))
    } else if is_named(&first, "self") {
        assert(errs(*errors) + Seq::<ParseErrorKind>::empty() =~= errs(*errors));
        Some(StructProp::SelfValue(span, rest))
    } else if is_named(&first, "tag") {
        report_rest(&rest, 0, "property not defined on struct @tag", errors);
        assert(rest@.subrange(0, rest@.len() as int) =~= rest@);
        Some(StructProp::Tag(span))
    } else if is_named(&first, "to") {
        if rest.len() == 0 {
            assert(errs(*errors) + Seq::<ParseErrorKind>::empty() =~= errs(*errors));
            Some(StructProp::To(span))
        } else if is_named(&rest[0], "untagged_default") {
            let s = rest[0].span();
            report_rest(&rest, 1, "property not defined on struct @(to.untagged_default)", errors);
            assert(rest@.subrange(1, rest@.len() as int) =~= rest@.drop_first());
            Some(StructProp::ToUntaggedDefault(s))
        } else if is_named(&rest[0], "tagged_default") {
            let s = rest[0].span();
            report_rest(&rest, 1, "property not defined on struct @(to.tagged_default)", errors);
            assert(rest@.subrange(1, rest@.len() as int) =~= rest@.drop_first());
            Some(StructProp::ToTaggedDefault(s))
        } else {
            let s = rest[0].span();
            errors.push_custom("property not defined on struct @to", Some(s));
            Some(StructProp::To(span))
        }
    } else {
        errors.push_custom("property not defined on struct", Some(span));
        None
    }
}

/// What `@to` asks for on an enum variant, after the property that follows
/// it, if any.
#[derive(Debug, Clone, Copy, PartialEq, Eq, Structural)]
pub enum VariantTo {
    /// `@to`
    Plain,
    /// `@(to.untagged)`
    Untagged(Span),
    /// `@(to.untagged_default)`
    UntaggedDefault(Span),
    /// `@(to.tagged_default)`
    TaggedDefault(Span),
    /// `@(to.tagged_kvs)`
    TaggedKvs(Span),
    /// `@(to.tagged_kvs_default)`
    TaggedKvsDefault(Span),
    /// `@(to.externally_tagged_default)`
    ExternallyTaggedDefault(Span),
    /// `@(to.adjacently_tagged_default)`
    AdjacentlyTaggedDefault(Span),
}

/// What a property path at an enum variant asks for, with the place of the
/// property that names it.
#[derive(Debug, Clone, Copy, PartialEq, Eq, Structural)]
pub enum VariantProp {
    /// `@tag`
    Tag(Span),
    /// `@content`
    Content(Span),
    /// `@name`
    Name(Span),
    /// `@discriminant`
    Discriminant(Span),
    /// `@discriminant_or_name`
    DiscriminantOrName(Span),
    /// `@to`, then what follows it.
    To(Span, VariantTo),
}

/// The name of each property that may follow `@to` on an enum variant, the
/// choice it makes and the message for properties after it.
pub open spec fn variant_to_named(p: Prop) -> Option<(VariantTo, &'static str)> {
    let s = prop_span(p);
    if prop_is(p, "untagged") {
        Some((VariantTo::Untagged(s), "property not defined on enum variant @(to.untagged)"))
    } else if prop_is(p, "untagged_default") {
        Some((VariantTo::UntaggedDefault(s), "property not defined on enum variant @(to.untagged_default)"))
    } else if prop_is(p, "tagged_default") {
        Some((VariantTo::TaggedDefault(s), "property not defined on enum variant @(to.tagged_default)"))
    } else if prop_is(p, "tagged_kvs") {
        Some((VariantTo::TaggedKvs(s), "property not defined on enum variant @(to.tagged_kvs)"))
    } else if prop_is(p, "tagged_kvs_default") {
        Some((VariantTo::TaggedKvsDefault(s), "property not defined on enum variant @(to.tagged_kvs_default)"))
    } else if prop_is(p, "externally_tagged_default") {
        Some(
            (
                VariantTo::ExternallyTaggedDefault(s),
                "property not defined on enum variant @(to.externally_tagged_default)",
            ),
        )
    } else if prop_is(p, "adjacently_tagged_default") {
        Some(
            (
                VariantTo::AdjacentlyTaggedDefault(s),
                "property not defined on enum variant @(to.adjacently_tagged_default)",
            ),
        )
    } else {
        None
    }
}

/// What follows `@to` on an enum variant.
pub open spec fn variant_to(rest: Seq<Prop>) -> VariantTo {
    if rest.len() > 0 && variant_to_named(rest[0]) is Some {
        variant_to_named(rest[0]).unwrap().0
    } else {
        VariantTo::Plain
    }
}

/// The errors of `@to` followed by `rest` on an enum variant.
pub open spec fn variant_to_errors(rest: Seq<Prop>) -> Seq<ParseErrorKind> {
    if rest.len() == 0 {
        Seq::empty()
    } else if variant_to_named(rest[0]) is Some {
        rest_errors(rest.drop_first(), variant_to_named(rest[0]).unwrap().1)
    } else {
        seq![error_at("property not defined on struct @to", rest[0])]
    }
}

/// The properties of an enum variant that take no more after them, with
/// the message for properties that follow.
pub open spec fn variant_simple(p: Prop) -> Option<(VariantProp, &'static str)> {
    let s = prop_span(p);
    if prop_is(p, "tag") {
        Some((VariantProp::Tag(s), "property not defined on enum variant @tag"))
    } else if prop_is(p, "content") {
        Some((VariantProp::Content(s), "property not defined on enum variant @content"))
    } else if prop_is(p, "name") {
        Some((VariantProp::Name(s), "property not defined on enum variant @name"))
    } else if prop_is(p, "discriminant") {
        Some((VariantProp::Discriminant(s), "property not defined on enum variant @discriminant"))
    } else if prop_is(p, "discriminant_or_name") {
        Some(
            (
                VariantProp::DiscriminantOrName(s),
                "property not defined on enum variant @discriminant_or_name",
            ),
        )
    } else {
        None
    }
}

/// What a property path at an enum variant asks for: nothing when its first
/// property is not one that variants define.
pub open spec fn variant_prop_of(first: Prop, rest: Seq<Prop>) -> Option<VariantProp> {
    if variant_simple(first) is Some {
        Some(variant_simple(first).unwrap().0)
    } else if prop_is(first, "to") {
        Some(VariantProp::To(prop_span(first), variant_to(rest)))
    } else {
        None
    }
}

/// The errors that reading a property path at an enum variant reports.
pub open spec fn variant_prop_errors(first: Prop, rest: Seq<Prop>) -> Seq<ParseErrorKind> {
    if variant_simple(first) is Some {
        rest_errors(rest, variant_simple(first).unwrap().1)
    } else if prop_is(first, "to") {
        variant_to_errors(rest)
    } else {
        seq![error_at("property not defined on enum variant", first)]
    }
}

/// Which property that may follow `@to` this is.
fn variant_to_named_exec(p: &Prop) -> (r: Option<(VariantTo, &'static str)>)
    ensures
        r == variant_to_named(*p),
{
    let s = p.span();
    if is_named(p, "untagged") {
        Some((VariantTo::Untagged(s), "property not defined on enum variant @(to.untagged)"))
    } else if is_named(p, "untagged_default") {
        Some((VariantTo::UntaggedDefault(s), "property not defined on enum variant @(to.untagged_default)"))
    } else if is_named(p, "tagged_default") {
        Some((VariantTo::TaggedDefault(s), "property not defined on enum variant @(to.tagged_default)"))
    } else if is_named(p, "tagged_kvs") {
        Some((VariantTo::TaggedKvs(s), "property not defined on enum variant @(to.tagged_kvs)"))
    } else if is_named(p, "tagged_kvs_default") {
        Some((VariantTo::TaggedKvsDefault(s), "property not defined on enum variant @(to.tagged_kvs_default)"))
    } else if is_named(p, "externally_tagged_default") {
        Some(
            (
                VariantTo::ExternallyTaggedDefault(s),
                "property not defined on enum variant @(to.externally_tagged_default)",
            ),
        )
    } else if is_named(p, "adjacently_tagged_default") {
        Some(
            (
                VariantTo::AdjacentlyTaggedDefault(s),
                "property not defined on enum variant @(to.adjacently_tagged_default)",
            ),
        )
    } else {
        None
    }
}

/// Which property that takes no more this is.
fn variant_simple_exec(p: &Prop) -> (r: Option<(VariantProp, &'static str)>)
    ensures
        r == variant_simple(*p),
{
    let s = p.span();
    if is_named(p, "tag") {
        Some((VariantProp::Tag(s), "property not defined on enum variant @tag"))
    } else if is_named(p, "content") {
        Some((VariantProp::Content(s), "property not defined on enum variant @content"))
    } else if is_named(p, "name") {
        Some((VariantProp::Name(s), "property not defined on enum variant @name"))
    } else if is_named(p, "discriminant") {
        Some((VariantProp::Discriminant(s), "property not defined on enum variant @discriminant"))
    } else if is_named(p, "discriminant_or_name") {
        Some(
            (
                VariantProp::DiscriminantOrName(s),
                "property not defined on enum variant @discriminant_or_name",
            ),
        )
    } else {
        None
    }
}

/// Reads a property path at an enum variant: `@tag`, `@content`, `@name`,
/// `@discriminant`, `@discriminant_or_name`, or `@to` and what may follow it.
/// A property that the variant does not define is reported, and so is the
/// first extra property after one that takes no more.
pub fn variant_prop(prop: PropPath, errors: &mut ErrorCollector) -> (r: Option<VariantProp>)
    ensures
        r == variant_prop_of(prop.0, prop.1@),
        errs(*final(errors)) == errs(*old(errors)) + variant_prop_errors(prop.0, prop.1@),
{
    let PropPath(first, rest) = prop;
    let span = first.span();
    match variant_simple_exec(&first) {
        Some((target, msg)) => {
            report_rest(&rest, 0, msg, errors);
            assert(rest@.subrange(0, rest@.len() as int) =~= rest@);
            return Some(target);
        },
        None => {},
    }
    if is_named(&first, "to") {
        if rest.len() == 0 {
            assert(errs(*errors) + Seq::<ParseErrorKind>::empty() =~= errs(*errors));
            Some(VariantProp::To(span, VariantTo::Plain))
        } else {
            match variant_to_named_exec(&rest[0]) {
                Some((after, msg)) => {
                    report_rest(&rest, 1, msg, errors);
                    assert(rest@.subrange(1, rest@.len() as int) =~= rest@.drop_first());
                    Some(VariantProp::To(span, after))
                },
                None => {
                    let s = rest[0].span();
                    errors.push_custom("property not defined on struct @to", Some(s));
                    Some(VariantProp::To(span, VariantTo::Plain))
                },
            }
        }
    } else {
        errors.push_custom("property not defined on enum variant", Some(span));
        None
    }
}

/// What a property path that is not about a field asks for at an enum
/// variant: `@item..` and `@self..` with the properties after them, or a
/// property of the variant itself.
pub enum VariantNonFieldProp {
    Item(Span, Vec<Prop>),
    SelfValue(Span, Vec<Prop>),
    AtVariant(PropPath),
}

/// Tells `@item..` and `@self..` from the properties of the variant itself,
/// which go on unread.
pub fn variant_non_field_prop(prop: PropPath) -> (r: VariantNonFieldProp)
    ensures
        prop_is(prop.0, "item") ==> (r matches VariantNonFieldProp::Item(s, v) && s == prop_span(prop.0)
            && v == prop.1),
        !prop_is(prop.0, "item") && prop_is(prop.0, "self") ==> (r matches VariantNonFieldProp::SelfValue(s, v) && s == prop_span(prop.0)
            && v == prop.1),
        !prop_is(prop.0, "item") && !prop_is(prop.0, "self") ==> r == VariantNonFieldProp::AtVariant(prop),
{
    if is_named(&prop.0, "item") {
        let span = prop.0.span();
        let PropPath(_, rest) = prop;
        VariantNonFieldProp::Item(span, rest)
    } else if is_named(&prop.0, "self") {
        let span = prop.0.span();
        let PropPath(_, rest) = prop;
        VariantNonFieldProp::SelfValue(span, rest)
    } else {
        VariantNonFieldProp::AtVariant(prop)
    }
}

/// What a property path on a field asks for, with the place of the
/// property that names it (of `default` for the `.default` forms).
#[derive(Debug, Clone, Copy, PartialEq, Eq, Structural)]
pub enum FieldProp {
    /// `name`
    Name(Span),
    /// `to`
    To(Span),
    /// `to.default`
    ToDefault(Span),
    /// `index_to_str`
    IndexToStr(Span),
    /// `name_or_index_to_str`
    NameOrIndexToStr(Span),
    /// `expr`
    Expr,
    /// `type`
    Type,
    /// `to_kvs`
    ToKvs(Span),
    /// `to_kvs.default`
    ToKvsDefault(Span),
    /// `to_items`
    ToItems(Span),
    /// `to_items.default`
    ToItemsDefault(Span),
}

/// `.default` after a property: the place of `default`, when it is there.
pub open spec fn default_of(rest: Seq<Prop>) -> Option<Span> {
    if rest.len() > 0 && prop_is(rest[0], "default") {
        Some(prop_span(rest[0]))
    } else {
        None
    }
}

/// The errors of what follows a property that may take `.default`: the
/// first property that is not `default`, or the first one after it.
pub open spec fn default_errors(rest: Seq<Prop>) -> Seq<ParseErrorKind> {
    if rest.len() == 0 {
        Seq::empty()
    } else if prop_is(rest[0], "default") {
        rest_errors(rest.drop_first(), "property not defined")
    } else {
        seq![error_at("property not defined", rest[0])]
    }
}

/// Reads `.default` after a property; any other property is reported.
pub fn match_ident_default(rest: &Vec<Prop>, errors: &mut ErrorCollector) -> (r: Option<Span>)
    ensures
        r == default_of(rest@),
        errs(*final(errors)) == errs(*old(errors)) + default_errors(rest@),
{
    if rest.len() == 0 {
        assert(errs(*errors) + Seq::<ParseErrorKind>::empty() =~= errs(*errors));
        return None;
    }
    let s = rest[0].span();
    if is_named(&rest[0], "default") {
        report_rest(rest, 1, "property not defined", errors);
        assert(rest@.subrange(1, rest@.len() as int) =~= rest@.drop_first());
        Some(s)
    } else {
        errors.push_custom("property not defined", Some(s));
        None
    }
}

/// The properties of a field that take no more after them.
pub open spec fn field_simple(p: Prop) -> Option<FieldProp> {
    let s = prop_span(p);
    if prop_is(p, "name") {
        Some(FieldProp::Name(s))
    } else if prop_is(p, "index_to_str") {
        Some(FieldProp::IndexToStr(s))
    } else if prop_is(p, "name_or_index_to_str") {
        Some(FieldProp::NameOrIndexToStr(s))
    } else if prop_is(p, "expr") {
        Some(FieldProp::Expr)
    } else if prop_is(p, "type") {
        Some(FieldProp::Type)
    } else {
        None
    }
}

/// The properties of a field that may take `.default`: the choice without
/// it, and the one with it at the place of `default`.
pub open spec fn field_with_default(p: Prop, rest: Seq<Prop>) -> Option<FieldProp> {
    let s = prop_span(p);
    let d = default_of(rest);
    if prop_is(p, "to") {
        Some(if d is Some { FieldProp::ToDefault(d.unwrap()) } else { FieldProp::To(s) })
    } else if prop_is(p, "to_kvs") {
        Some(if d is Some { FieldProp::ToKvsDefault(d.unwrap()) } else { FieldProp::ToKvs(s) })
    } else if prop_is(p, "to_items") {
        Some(if d is Some { FieldProp::ToItemsDefault(d.unwrap()) } else { FieldProp::ToItems(s) })
    } else {
        None
    }
}

/// What a property path on a field asks for: nothing when its first
/// property is not one that fields define.
pub open spec fn field_prop_of(first: Prop, rest: Seq<Prop>) -> Option<FieldProp> {
    if field_simple(first) is Some {
        field_simple(first)
    } else {
        field_with_default(first, rest)
    }
}

/// The errors that reading a property path on a field reports.
pub open spec fn field_prop_errors(first: Prop, rest: Seq<Prop>) -> Seq<ParseErrorKind> {
    if field_simple(first) is Some {
        rest_errors(rest, "property not defined")
    } else if field_with_default(first, rest) is Some {
        default_errors(rest)
    } else {
        seq![error_at("property not defined on field of struct", first)]
    }
}

/// Which property of a field that takes no more this is.
fn field_simple_exec(p: &Prop) -> (r: Option<FieldProp>)
    ensures
        r == field_simple(*p),
{
    let s = p.span();
    if is_named(p, "name") {
        Some(FieldProp::Name(s))
    } else if is_named(p, "index_to_str") {
        Some(FieldProp::IndexToStr(s))
    } else if is_named(p, "name_or_index_to_str") {
        Some(FieldProp::NameOrIndexToStr(s))
    } else if is_named(p, "expr") {
        Some(FieldProp::Expr)
    } else if is_named(p, "type") {
        Some(FieldProp::Type)
    } else {
        None
    }
}

/// Reads a property path on a field: `name`, `index_to_str`,
/// `name_or_index_to_str`, `expr`, `type`, or `to`, `to_kvs`, `to_items`,
/// each of these last three with `.default` or not. A property that fields
/// do not define is reported, and so is the first extra one.
pub fn field_prop(first: Prop, rest: Vec<Prop>, errors: &mut ErrorCollector) -> (r: Option<FieldProp>)
    ensures
        r == field_prop_of(first, rest@),
        errs(*final(errors)) == errs(*old(errors)) + field_prop_errors(first, rest@),
{
    let span = first.span();
    match field_simple_exec(&first) {
        Some(target) => {
            report_rest(&rest, 0, "property not defined", errors);
            assert(rest@.subrange(0, rest@.len() as int) =~= rest@);
            return Some(target);
        },
        None => {},
    }
    if is_named(&first, "to") {
        match match_ident_default(&rest, errors) {
            Some(d) => Some(FieldProp::ToDefault(d)),
            None => Some(FieldProp::To(span)),
        }
    } else if is_named(&first, "to_kvs") {
        match match_ident_default(&rest, errors) {
            Some(d) => Some(FieldProp::ToKvsDefault(d)),
            None => Some(FieldProp::ToKvs(span)),
        }
    } else if is_named(&first, "to_items") {
        match match_ident_default(&rest, errors) {
            Some(d) => Some(FieldProp::ToItemsDefault(d)),
            None => Some(FieldProp::ToItems(span)),
        }
    } else {
        errors.push_custom("property not defined on field of struct", Some(span));
        None
    }
}

/// Reads the properties after `field`; there must be at least one, else
/// the error is at `span`, the place of `field`.
pub fn field_props_maybe_empty(span: Span, rest: Vec<Prop>, errors: &mut ErrorCollector) -> (r: Option<FieldProp>)
    ensures
        rest@.len() == 0 ==> r is None && errs(*final(errors)) == errs(*old(errors)).push(
            ParseErrorKind::Custom { msg: "this property cannot expand to tokens", span: Some(span) },
        ),
        rest@.len() > 0 ==> r == field_prop_of(rest@[0], rest@.drop_first()) && errs(*final(errors))
            == errs(*old(errors)) + field_prop_errors(rest@[0], rest@.drop_first()),
{
    if rest.len() == 0 {
        errors.push_custom("this property cannot expand to tokens", Some(span));
        return None;
    }
    let mut rest = rest;
    let first = rest.remove(0);
    field_prop(first, rest, errors)
}

/// The first field from `i` on that is not skipped; the number of fields
/// when there is none.
pub open spec fn next_unskipped<F: Field>(fs: Seq<F>, i: int) -> int
    decreases fs.len() - i,
{
    if i >= fs.len() {
        fs.len() as int
    } else if !fs[i].is_skipped() {
        i
    } else {
        next_unskipped(fs, i + 1)
    }
}

/// `next_unskipped` is the least index from `i` on that is not skipped.
pub proof fn lemma_next_unskipped<F: Field>(fs: Seq<F>, i: int)
    requires
        0 <= i,
    ensures
        i <= next_unskipped(fs, i) || i > fs.len(),
        next_unskipped(fs, i) <= fs.len(),
        next_unskipped(fs, i) < fs.len() ==> !fs[next_unskipped(fs, i)].is_skipped(),
        forall|k: int| i <= k < next_unskipped(fs, i) ==> #[trigger] fs[k].is_skipped(),
    decreases fs.len() - i,
{
    if i < fs.len() && fs[i].is_skipped() {
        lemma_next_unskipped(fs, i + 1);
    }
}

/// Where `@[..]*` stands among the fields: at a field that is not skipped,
/// or past the last field.
pub struct BracketStarCursor {
    pub index: usize,
}

impl BracketStarCursor {
    /// The cursor stands at a field that is not skipped, or at the end.
    pub open spec fn wf<F: Field>(self, fs: Seq<F>) -> bool {
        &&& self.index <= fs.len()
        &&& self.index < fs.len() ==> !fs[self.index as int].is_skipped()
    }

    /// At the first field that is not skipped.
    pub fn new<F: Field>(fields: &Vec<F>) -> (r: Self)
        ensures
            r.index == next_unskipped(fields@, 0),
            r.wf(fields@),
    {
        let mut i: usize = 0;
        while i < fields.len() && fields[i].skipped()
            invariant
                i <= fields@.len(),
                next_unskipped(fields@, i as int) == next_unskipped(fields@, 0),
            decreases fields@.len() - i,
        {
            i = i + 1;
        }
        proof {
            lemma_next_unskipped(fields@, i as int);
        }
        BracketStarCursor { index: i }
    }

    /// It stands at a field.
    pub fn has_current<F: Field>(&self, fields: &Vec<F>) -> (r: bool)
        ensures
            r == (self.index < fields@.len()),
    {
        self.index < fields.len()
    }

    /// On to the next field that is not skipped; at the end it stays.
    pub fn next<F: Field>(&mut self, fields: &Vec<F>)
        requires
            old(self).index <= fields@.len(),
        ensures
            final(self).index == if old(self).index < fields@.len() {
                next_unskipped(fields@, old(self).index + 1)
            } else {
                old(self).index as int
            },
            final(self).wf(fields@),
    {
        if self.index < fields.len() {
            let mut i: usize = self.index + 1;
            while i < fields.len() && fields[i].skipped()
                invariant
                    old(self).index < i <= fields@.len(),
                    next_unskipped(fields@, i as int) == next_unskipped(fields@, old(self).index + 1),
                decreases fields@.len() - i,
            {
                i = i + 1;
            }
            proof {
                lemma_next_unskipped(fields@, i as int);
            }
            self.index = i;
        }
    }
}

} // verus!
