//! The pattern that takes an enum variant apart in the generated `match`:
//! only the fields whose values the template reads are bound.
use vstd::prelude::*;
use crate::syn_generic::tokens::{
    Span, TokenTree, Punct, Spacing, Group, Delimiter, DeepToken, deep_seq, deep_tt, lemma_deep_seq_add,
    lemma_deep_seq_push, lemma_deep_seq_index,
};
use crate::json_item::{FieldName, VariantType};
use crate::item_attrs::make_ident;
use vstd::string::StringSliceAdditionalSpecFns;

verus! {

/// A field of a variant as its pattern needs it: whether the template read
/// its value, its name, and the pattern that binds an unnamed one.
pub struct PatField {
    pub accessed_expr: bool,
    pub name: FieldName,
    pub pattern: Option<Vec<TokenTree>>,
}

/// A punctuation character standing alone at the place of the macro call.
pub open spec fn p0(ch: char) -> DeepToken {
    DeepToken::Punct(Punct { ch, spacing: Spacing::Alone, span: Span(0) })
}

/// The bindings of a variant with named fields: `name,` for each field
/// whose value is read.
pub open spec fn named_bindings(fs: Seq<PatField>) -> Seq<DeepToken>
    decreases fs.len(),
{
    if fs.len() == 0 {
        Seq::empty()
    } else {
        let f = fs.last();
        named_bindings(fs.drop_last()) + if f.accessed_expr {
            match f.name {
                FieldName::Named(i) => seq![DeepToken::Ident(i.name@, i.span), p0(',')],
                FieldName::Index(_) => Seq::empty(),
            }
        } else {
            Seq::empty()
        }
    }
}

/// The bindings of a variant with unnamed fields: the pattern of each field
/// whose value is read, `_` for the others, each followed by `,`.
pub open spec fn unnamed_bindings(fs: Seq<PatField>) -> Seq<DeepToken>
    decreases fs.len(),
{
    if fs.len() == 0 {
        Seq::empty()
    } else {
        let f = fs.last();
        unnamed_bindings(fs.drop_last()) + if f.accessed_expr {
            match f.pattern {
                Some(p) => deep_seq(p@) + seq![p0(',')],
                None => Seq::empty(),
            }
        } else {
            seq![DeepToken::Ident("_".spec_bytes(), Span(0)), p0(',')]
        }
    }
}

/// The pattern after the variant's name: none for a unit variant; the
/// bindings in braces, with `..` when a field is left out; the bindings in
/// parentheses.
pub open spec fn pat_body_tokens(vt: VariantType, fs: Seq<PatField>) -> Option<DeepToken> {
    match vt {
        VariantType::Unit => None,
        VariantType::Object => Some(
            DeepToken::Group(
                Delimiter::Brace,
                named_bindings(fs) + if exists|i: int| 0 <= i < fs.len() && !(#[trigger] fs[i]).accessed_expr {
                    seq![DeepToken::Punct(Punct { ch: '.', spacing: Spacing::Joint, span: Span(0) }), p0('.')]
                } else {
                    Seq::empty()
                },
                Span(0),
                Span(0),
            ),
        ),
        VariantType::Array => Some(DeepToken::Group(Delimiter::Parenthesis, unnamed_bindings(fs), Span(0), Span(0))),
    }
}

/// The fields fit the variant: the read fields of a variant with named
/// fields are named; the read fields of one with unnamed fields have their
/// pattern.
pub open spec fn pat_fields_fit(vt: VariantType, fs: Seq<PatField>) -> bool {
    match vt {
        VariantType::Unit => true,
        VariantType::Object => forall|i: int| 0 <= i < fs.len() && (#[trigger] fs[i]).accessed_expr ==> fs[i].name is Named,
        VariantType::Array => forall|i: int| 0 <= i < fs.len() && (#[trigger] fs[i]).accessed_expr ==> fs[i].pattern is Some,
    }
}

/// Adds one token at the end.
fn push_deep(out: &mut Vec<TokenTree>, t: TokenTree)
    ensures
        deep_seq(final(out)@) == deep_seq(old(out)@).push(deep_tt(t)),
{
    proof {
        lemma_deep_seq_push(out@, t);
    }
    out.push(t);
}

/// The pattern that takes a variant apart after its name.
pub fn pat_body(variant_type: VariantType, fields: Vec<PatField>) -> (r: Option<TokenTree>)
    requires
        pat_fields_fit(variant_type, fields@),
    ensures
        match pat_body_tokens(variant_type, fields@) {
            None => r is None,
            Some(d) => r matches Some(t) && deep_tt(t) == d,
        },
{
    let ghost all = fields@;
    assert(all.len() <= usize::MAX) by {
        assert(fields@.len() == fields.len());
    }
    match variant_type {
        VariantType::Unit => None,
        VariantType::Object => {
            let mut inner: Vec<TokenTree> = Vec::new();
            let mut has_unused = false;
            let mut rest = fields;
            let mut k: usize = 0;
            proof {
                assert(all.subrange(0, 0) =~= Seq::<PatField>::empty());
                assert(deep_seq(inner@) =~= Seq::<DeepToken>::empty());
            }
            while rest.len() > 0
                invariant
                    k + rest@.len() == all.len(),
                    all.len() <= usize::MAX,
                    rest@ == all.subrange(k as int, all.len() as int),
                    deep_seq(inner@) == named_bindings(all.subrange(0, k as int)),
                    has_unused == exists|i: int| 0 <= i < k && !(#[trigger] all[i]).accessed_expr,
                    pat_fields_fit(VariantType::Object, all),
                decreases rest@.len(),
            {
                let f = rest.remove(0);
                let ghost pre = all.subrange(0, k as int + 1);
                proof {
                    assert(f == all[k as int]);
                    assert(pre.drop_last() =~= all.subrange(0, k as int));
                    assert(pre.last() == f);
                }
                let PatField { accessed_expr, name, pattern: _ } = f;
                if accessed_expr {
                    match name {
                        FieldName::Named(i) => {
                            let ghost iv = i;
                            let ghost before = deep_seq(inner@);
                            push_deep(&mut inner, TokenTree::Ident(i));
                            push_deep(&mut inner, TokenTree::Punct(Punct { ch: ',', spacing: Spacing::Alone, span: Span(0) }));
                            proof {
                                assert(deep_seq(inner@) =~= before + seq![DeepToken::Ident(iv.name@, iv.span), p0(',')]);
                            }
                        },
                        FieldName::Index(_) => {
                            proof {
                                assert(all[k as int].accessed_expr);
                                assert(false);
                            }
                        },
                    }
                } else {
                    has_unused = true;
                    assert(deep_seq(inner@) + Seq::<DeepToken>::empty() =~= deep_seq(inner@));
                }
                proof {
                    assert(deep_seq(inner@) =~= named_bindings(pre));
                    if !has_unused {
                        assert forall|i: int| 0 <= i < k + 1 implies (#[trigger] all[i]).accessed_expr by {
                            if i < k {
                            } else {
                                assert(all[i] == f);
                            }
                        }
                    } else {
                        if !accessed_expr {
                            assert(!all[k as int].accessed_expr);
                        }
                    }
                }
                k = k + 1;
                proof {
                    assert(rest@ =~= all.subrange(k as int, all.len() as int));
                }
            }
            proof {
                assert(all.subrange(0, k as int) =~= all);
            }
            let ghost before = deep_seq(inner@);
            if has_unused {
                push_deep(&mut inner, TokenTree::Punct(Punct { ch: '.', spacing: Spacing::Joint, span: Span(0) }));
                push_deep(&mut inner, TokenTree::Punct(Punct { ch: '.', spacing: Spacing::Alone, span: Span(0) }));
                proof {
                    assert(deep_seq(inner@) =~= before + seq![
                        DeepToken::Punct(Punct { ch: '.', spacing: Spacing::Joint, span: Span(0) }),
                        p0('.'),
                    ]);
                }
            } else {
                assert(before + Seq::<DeepToken>::empty() =~= before);
            }
            Some(TokenTree::Group(Group { delimiter: Delimiter::Brace, stream: inner, span_open: Span(0), span_close: Span(0) }))
        },
        VariantType::Array => {
            let mut inner: Vec<TokenTree> = Vec::new();
            let mut rest = fields;
            let mut k: usize = 0;
            proof {
                assert(all.subrange(0, 0) =~= Seq::<PatField>::empty());
                assert(deep_seq(inner@) =~= Seq::<DeepToken>::empty());
            }
            while rest.len() > 0
                invariant
                    k + rest@.len() == all.len(),
                    all.len() <= usize::MAX,
                    rest@ == all.subrange(k as int, all.len() as int),
                    deep_seq(inner@) == unnamed_bindings(all.subrange(0, k as int)),
                    pat_fields_fit(VariantType::Array, all),
                decreases rest@.len(),
            {
                let f = rest.remove(0);
                let ghost pre = all.subrange(0, k as int + 1);
                proof {
                    assert(f == all[k as int]);
                    assert(pre.drop_last() =~= all.subrange(0, k as int));
                    assert(pre.last() == f);
                }
                let PatField { accessed_expr, name: _, pattern } = f;
                let ghost before = deep_seq(inner@);
                if accessed_expr {
                    match pattern {
                        Some(p) => {
                            let ghost pv = p@;
                            proof {
                                lemma_deep_seq_add(inner@, p@);
                            }
                            let mut p = p;
                            inner.append(&mut p);
                            push_deep(&mut inner, TokenTree::Punct(Punct { ch: ',', spacing: Spacing::Alone, span: Span(0) }));
                            proof {
                                assert(deep_seq(inner@) =~= before + (deep_seq(pv) + seq![p0(',')]));
                            }
                        },
                        None => {
                            proof {
                                assert(all[k as int].accessed_expr);
                                assert(false);
                            }
                        },
                    }
                } else {
                    push_deep(&mut inner, TokenTree::Ident(make_ident("_", Span(0))));
                    push_deep(&mut inner, TokenTree::Punct(Punct { ch: ',', spacing: Spacing::Alone, span: Span(0) }));
                    proof {
                        assert(deep_seq(inner@) =~= before + seq![DeepToken::Ident("_".spec_bytes(), Span(0)), p0(',')]);
                    }
                }
                proof {
                    assert(deep_seq(inner@) =~= unnamed_bindings(pre));
                }
                k = k + 1;
                proof {
                    assert(rest@ =~= all.subrange(k as int, all.len() as int));
                }
            }
            proof {
                assert(all.subrange(0, k as int) =~= all);
            }
            Some(TokenTree::Group(Group { delimiter: Delimiter::Parenthesis, stream: inner, span_open: Span(0), span_close: Span(0) }))
        },
    }
}

} // verus!
