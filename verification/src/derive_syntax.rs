//! Reading a derive input with `syn`: the values of the model, the names for
//! what syn makes of a token stream, the calls into syn, and the conversion
//! of syn's values into the model.

use vstd::prelude::*;
use crate::tokens::{literals_known, model_of, tokens_view, SpanRef, Token, TokenInput, TokenView};
use crate::derive_input::{
    attrs_literals_known, FieldsIter, AttrDef, ItemData, ItemInput, FieldDef, FieldList, GenericArgument, LitDef, MetaDef, NestedDef, PathDef,
    PathArguments, SegmentDef, TypeDef,
};

verus! {

/// The value of a generic argument.
pub enum GenericArgumentView {
    Type(TypeView),
    Other,
}

/// The value of the arguments of a path segment.
pub enum PathArgumentsView {
    NoArguments,
    AngleBracketed(Seq<GenericArgumentView>),
    Parenthesized,
}

/// The value of a path segment.
pub struct PathSegmentView {
    pub ident: Seq<char>,
    pub arguments: PathArgumentsView,
}

/// The value of a type.
pub enum TypeView {
    Path { segments: Seq<PathSegmentView>, tokens: Seq<TokenView> },
    Other { tokens: Seq<TokenView> },
}

/// The value of a literal inside an attribute.
pub enum LitView {
    Str(Seq<char>),
    Other,
}

/// The value of a `MetaDef`.
pub enum MetaView {
    Path(Seq<PathSegmentView>),
    List { path: Seq<PathSegmentView>, nested: Seq<NestedMetaView> },
    NameValue { path: Seq<PathSegmentView>, lit: LitView },
}

/// The value of an item of a `MetaDef::List`.
pub enum NestedMetaView {
    Meta(MetaView),
    Lit(LitView),
}

/// The value of a field.
pub struct FieldView {
    pub ident: Option<Seq<char>>,
    pub ident_span: SpanRef,
    pub ty: TypeView,
    pub attrs: Seq<Seq<TokenView>>,
    pub tokens: Seq<TokenView>,
}

/// The value of the fields of a struct.
pub enum FieldsView {
    Named(Seq<FieldView>),
    Unnamed(Seq<FieldView>),
    Unit,
}

/// The value of the body of an item.
pub enum DataView {
    Struct(FieldsView),
    Enum,
    Union,
}

/// The value of a derive input.
pub struct DeriveInputView {
    pub ident: Seq<char>,
    pub ident_span: SpanRef,
    pub data: DataView,
}

pub open spec fn type_view(t: TypeDef) -> TypeView
    decreases t,
{
    match t {
        TypeDef::Path { path, tokens } => TypeView::Path {
            segments: segments_view(path.segments@),
            tokens: tokens_view(tokens@),
        },
        TypeDef::Other { tokens } => TypeView::Other { tokens: tokens_view(tokens@) },
    }
}

pub open spec fn segments_view(s: Seq<SegmentDef>) -> Seq<PathSegmentView>
    decreases s,
{
    if s.len() == 0 {
        Seq::empty()
    } else {
        segments_view(s.drop_last()).push(segment_view(s[s.len() - 1]))
    }
}

pub open spec fn segment_view(g: SegmentDef) -> PathSegmentView
    decreases g,
{
    PathSegmentView { ident: g.ident@, arguments: arguments_view(g.arguments) }
}

pub open spec fn arguments_view(a: PathArguments) -> PathArgumentsView
    decreases a,
{
    match a {
        PathArguments::NoArguments => PathArgumentsView::NoArguments,
        PathArguments::AngleBracketed(v) => PathArgumentsView::AngleBracketed(generics_view(v@)),
        PathArguments::Parenthesized => PathArgumentsView::Parenthesized,
    }
}

pub open spec fn generics_view(s: Seq<GenericArgument>) -> Seq<GenericArgumentView>
    decreases s,
{
    if s.len() == 0 {
        Seq::empty()
    } else {
        generics_view(s.drop_last()).push(generic_view(s[s.len() - 1]))
    }
}

pub open spec fn generic_view(g: GenericArgument) -> GenericArgumentView
    decreases g,
{
    match g {
        GenericArgument::Type(t) => GenericArgumentView::Type(type_view(t)),
        GenericArgument::Other => GenericArgumentView::Other,
    }
}

pub open spec fn lit_view(l: LitDef) -> LitView {
    match l {
        LitDef::Str(s) => LitView::Str(s@),
        LitDef::Other => LitView::Other,
    }
}

pub open spec fn meta_view(m: MetaDef) -> MetaView
    decreases m,
{
    match m {
        MetaDef::Path(p) => MetaView::Path(segments_view(p.segments@)),
        MetaDef::List { path, nested } => MetaView::List {
            path: segments_view(path.segments@),
            nested: nesteds_view(nested@),
        },
        MetaDef::NameValue { path, lit } => MetaView::NameValue {
            path: segments_view(path.segments@),
            lit: lit_view(lit),
        },
    }
}

pub open spec fn nesteds_view(s: Seq<NestedDef>) -> Seq<NestedMetaView>
    decreases s,
{
    if s.len() == 0 {
        Seq::empty()
    } else {
        nesteds_view(s.drop_last()).push(nested_view(s[s.len() - 1]))
    }
}

pub open spec fn nested_view(n: NestedDef) -> NestedMetaView
    decreases n,
{
    match n {
        NestedDef::Meta(m) => NestedMetaView::Meta(meta_view(m)),
        NestedDef::Lit(l) => NestedMetaView::Lit(lit_view(l)),
    }
}

pub open spec fn field_view(f: FieldDef) -> FieldView {
    FieldView {
        ident: match f.ident {
            Some(s) => Some(s@),
            None => None,
        },
        ident_span: f.ident_span,
        ty: type_view(f.ty),
        attrs: f.attrs@.map_values(|a: AttrDef| a@),
        tokens: tokens_view(f.tokens@),
    }
}

pub open spec fn fields_view(f: FieldList) -> FieldsView {
    match f {
        FieldList::Named(v) => FieldsView::Named(v@.map_values(|x: FieldDef| field_view(x))),
        FieldList::Unnamed(v) => FieldsView::Unnamed(v@.map_values(|x: FieldDef| field_view(x))),
        FieldList::Unit => FieldsView::Unit,
    }
}

pub open spec fn derive_input_view(d: ItemInput) -> DeriveInputView {
    DeriveInputView {
        ident: d.ident@,
        ident_span: d.ident_span,
        data: match d.data {
            ItemData::Struct(f) => DataView::Struct(fields_view(f)),
            ItemData::Enum => DataView::Enum,
            ItemData::Union => DataView::Union,
        },
    }
}

/// The identifier of the first segment of a path.
pub open spec fn first_ident_view(p: Seq<PathSegmentView>) -> Option<Seq<char>> {
    if p.len() > 0 {
        Some(p[0].ident)
    } else {
        None
    }
}

pub proof fn lemma_segments_view_index(s: Seq<SegmentDef>, i: int)
    requires
        0 <= i < s.len(),
    ensures
        segments_view(s).len() == s.len(),
        segments_view(s)[i] == segment_view(s[i]),
    decreases s.len(),
{
    let d = s.drop_last();
    if d.len() > 0 {
        if i < d.len() {
            lemma_segments_view_index(d, i);
        } else {
            lemma_segments_view_index(d, 0);
        }
    } else {
        assert(segments_view(d) == Seq::<PathSegmentView>::empty());
    }
}

pub proof fn lemma_nesteds_view_take(s: Seq<NestedDef>, k: int)
    requires
        0 <= k < s.len(),
    ensures
        nesteds_view(s.take(k + 1)) == nesteds_view(s.take(k)).push(nested_view(s[k])),
{
    assert(s.take(k + 1).drop_last() =~= s.take(k));
}

/// What syn's `ItemInput` parser makes of the tokens, as read into the
/// model; `None` where it refuses them.
pub uninterp spec fn syn_derive_input(tokens: Seq<TokenView>) -> Option<DeriveInputView>;

/// What syn's `AttrDef::parse_meta` makes of the attribute with these
/// tokens, as read into the model; `None` where it refuses it.
pub uninterp spec fn syn_meta(tokens: Seq<TokenView>) -> Option<MetaView>;

#[verifier::external_type_specification]
#[verifier::external_body]
pub struct ExSynError(syn::Error);

/// The error that syn gives where it refuses its input.
#[derive(Debug)]
pub struct ParseFailure {
    pub error: syn::Error,
}

/// A derive input read by syn: its model, and the token trees that the spans
/// of the model's tokens refer to.
pub struct ParsedDerive {
    pub input: ItemInput,
    pub trees: Vec<proc_macro2::TokenTree>,
}

/// Calls `syn::parse2::<syn::DeriveInput>` on the input's stream and reads
/// the result into the model. Trusted: the model's value is
/// `syn_derive_input(input@)`, a function of the tokens alone, and `Err`
/// comes exactly where that is `None`. Every literal of the input must be a
/// known one: syn's `Lit::new` panics on any other (it reads literals in
/// discriminants and array lengths). syn keeps the tokens of an attribute
/// after its path as they stand in the input, so the literals of the fields'
/// attributes are known too. What the error holds is not stated.
#[verifier::external_body]
pub(crate) fn parse_derive_input(input: &TokenInput) -> (r: Result<ParsedDerive, ParseFailure>)
    requires
        literals_known(input@),
    ensures
        match syn_derive_input(input@) {
            Some(v) => r matches Ok(p) && derive_input_view(p.input) == v,
            None => r is Err,
        },
        r matches Ok(p) ==> attrs_literals_known(p.input.named_fields()),
{
    match syn::parse2::<syn::DeriveInput>(input.stream.clone()) {
        Ok(d) => {
            let mut trees = Vec::new();
            let input = derive_input_of(&d, &mut trees);
            Ok(ParsedDerive { input, trees })
        },
        Err(error) => Err(ParseFailure { error }),
    }
}

/// Calls `syn::Attribute::parse_meta` on the attribute and reads the result
/// into the model. Trusted: the model's value is `syn_meta(attr@)`, a
/// function of the attribute's tokens alone, and `Err` comes exactly where
/// that is `None`. Every literal of the attribute must be a known one: syn's
/// `Lit::new` panics on any other. What the error holds is not stated.
#[verifier::external_body]
pub(crate) fn parse_meta(attr: &AttrDef) -> (r: Result<MetaDef, ParseFailure>)
    requires
        literals_known(attr@),
    ensures
        match syn_meta(attr@) {
            Some(v) => r matches Ok(m) && meta_view(m) == v,
            None => r is Err,
        },
{
    match attr.syn.parse_meta() {
        Ok(m) => Ok(meta_of(&m)),
        Err(error) => Err(ParseFailure { error }),
    }
}

impl AttrDef {
    /// The error that reading the attribute as a `MetaDef` gives, if any.
    pub fn meta_error(&self) -> (r: Option<ParseFailure>)
        requires
            literals_known(self@),
        ensures
            r is Some <==> syn_meta(self@) is None,
    {
        match parse_meta(self) {
            Ok(_) => None,
            Err(e) => Some(e),
        }
    }
}

#[verifier::external_type_specification]
#[verifier::external_body]
pub struct ExSynDeriveInput(syn::DeriveInput);

#[verifier::external_type_specification]
#[verifier::external_body]
pub struct ExSynData(syn::Data);

#[verifier::external_type_specification]
#[verifier::external_body]
pub struct ExSynFields(syn::Fields);

#[verifier::external_type_specification]
#[verifier::external_body]
pub struct ExSynField(syn::Field);

#[verifier::external_type_specification]
#[verifier::external_body]
pub struct ExSynType(syn::Type);

#[verifier::external_type_specification]
#[verifier::external_body]
pub struct ExSynPath(syn::Path);

#[verifier::external_type_specification]
#[verifier::external_body]
pub struct ExSynPathSegment(syn::PathSegment);

#[verifier::external_type_specification]
#[verifier::external_body]
pub struct ExSynAngleBracketed(syn::AngleBracketedGenericArguments);

#[verifier::external_type_specification]
#[verifier::external_body]
pub struct ExSynMeta(syn::Meta);

#[verifier::external_type_specification]
#[verifier::external_body]
pub struct ExSynMetaList(syn::MetaList);

#[verifier::external_type_specification]
#[verifier::external_body]
pub struct ExSynLit(syn::Lit);

#[verifier::external_type_specification]
#[verifier::external_body]
pub struct ExIdent(proc_macro2::Ident);

/// Reads a `syn::DeriveInput` (its `ident` and `data`) into the model. No
/// contract: it only converts.
#[verifier::external_body]
fn derive_input_of(d: &syn::DeriveInput, trees: &mut Vec<proc_macro2::TokenTree>) -> ItemInput {
    ItemInput {
        ident: d.ident.to_string(),
        ident_span: ident_span_of(&d.ident, trees),
        data: data_of(&d.data, trees),
    }
}

/// Keeps an identifier among the trees; its span refers to it. No contract.
#[verifier::external_body]
fn ident_span_of(i: &proc_macro2::Ident, trees: &mut Vec<proc_macro2::TokenTree>) -> SpanRef {
    trees.push(proc_macro2::TokenTree::Ident(i.clone()));
    SpanRef::Input((trees.len() - 1) as u64)
}

/// Reads a `syn::Data` into the model, one variant for one. No contract.
#[verifier::external_body]
fn data_of(d: &syn::Data, trees: &mut Vec<proc_macro2::TokenTree>) -> ItemData {
    match d {
        syn::Data::Struct(s) => ItemData::Struct(fields_of(&s.fields, trees)),
        syn::Data::Enum(_) => ItemData::Enum,
        syn::Data::Union(_) => ItemData::Union,
    }
}

/// Reads a `syn::Fields` into the model, one variant for one. No contract.
#[verifier::external_body]
fn fields_of(f: &syn::Fields, trees: &mut Vec<proc_macro2::TokenTree>) -> FieldList {
    match f {
        syn::Fields::Named(_) => FieldList::Named(field_list(f, trees)),
        syn::Fields::Unnamed(_) => FieldList::Unnamed(field_list(f, trees)),
        syn::Fields::Unit => FieldList::Unit,
    }
}

/// Reads each field of `syn::Fields::iter`, in order. No contract.
#[verifier::external_body]
fn field_list(f: &syn::Fields, trees: &mut Vec<proc_macro2::TokenTree>) -> Vec<FieldDef> {
    let mut out = Vec::new();
    for x in f.iter() {
        out.push(field_of(x, trees));
    }
    out
}

/// Reads a `syn::Field` (its `ident`, `ty`, `attrs` and tokens) into the
/// model. No contract: it only converts.
#[verifier::external_body]
fn field_of(f: &syn::Field, trees: &mut Vec<proc_macro2::TokenTree>) -> FieldDef {
    let tokens = model_of(quote::ToTokens::to_token_stream(f), trees);
    let ident = f.ident.as_ref().map(|i| i.to_string());
    let ident_span = match &f.ident {
        Some(i) => ident_span_of(i, trees),
        None => SpanRef::CallSite,
    };
    let ty = type_of(&f.ty, trees);
    let mut attrs = Vec::new();
    for a in f.attrs.iter() {
        attrs.push(AttrDef { tokens: model_of(quote::ToTokens::to_token_stream(a), trees), syn: a.clone() });
    }
    FieldDef { ident, ident_span, ty, attrs, tokens }
}

/// Reads a `syn::Type` (a path type's path, and the tokens) into the model.
/// No contract: it only converts.
#[verifier::external_body]
fn type_of(t: &syn::Type, trees: &mut Vec<proc_macro2::TokenTree>) -> TypeDef {
    let tokens = model_of(quote::ToTokens::to_token_stream(t), trees);
    match t {
        syn::Type::Path(tp) => TypeDef::Path { path: path_of(&tp.path, trees), tokens },
        _ => TypeDef::Other { tokens },
    }
}

/// Reads the segments of a `syn::Path` into the model. No contract.
#[verifier::external_body]
fn path_of(p: &syn::Path, trees: &mut Vec<proc_macro2::TokenTree>) -> PathDef {
    let mut segments = Vec::new();
    for seg in p.segments.iter() {
        segments.push(segment_of(seg, trees));
    }
    PathDef { segments }
}

/// Reads a `syn::PathSegment` into the model, one variant of its arguments
/// for one. No contract.
#[verifier::external_body]
fn segment_of(seg: &syn::PathSegment, trees: &mut Vec<proc_macro2::TokenTree>) -> SegmentDef {
    let arguments = match &seg.arguments {
        syn::PathArguments::None => PathArguments::NoArguments,
        syn::PathArguments::AngleBracketed(ab) => PathArguments::AngleBracketed(generics_of(ab, trees)),
        syn::PathArguments::Parenthesized(_) => PathArguments::Parenthesized,
    };
    SegmentDef { ident: seg.ident.to_string(), arguments }
}

/// Reads the arguments of `<...>`, a type for a type and anything else as
/// `Other`. No contract.
#[verifier::external_body]
fn generics_of(ab: &syn::AngleBracketedGenericArguments, trees: &mut Vec<proc_macro2::TokenTree>) -> Vec<GenericArgument> {
    let mut out = Vec::new();
    for a in ab.args.iter() {
        out.push(match a {
            syn::GenericArgument::Type(t) => GenericArgument::Type(type_of(t, trees)),
            _ => GenericArgument::Other,
        });
    }
    out
}

/// Reads a `syn::Meta` into the model, one variant for one. No contract.
#[verifier::external_body]
fn meta_of(m: &syn::Meta) -> MetaDef {
    let mut unused = Vec::new();
    match m {
        syn::Meta::Path(p) => MetaDef::Path(path_of(p, &mut unused)),
        syn::Meta::List(l) => MetaDef::List { path: path_of(&l.path, &mut unused), nested: nested_of(l) },
        syn::Meta::NameValue(nv) => MetaDef::NameValue { path: path_of(&nv.path, &mut unused), lit: lit_of(&nv.lit) },
    }
}

/// Reads the items of a `MetaDef::List`, in order, one variant for one. No
/// contract.
#[verifier::external_body]
fn nested_of(l: &syn::MetaList) -> Vec<NestedDef> {
    let mut out = Vec::new();
    for n in l.nested.iter() {
        out.push(match n {
            syn::NestedMeta::Meta(m) => NestedDef::Meta(meta_of(m)),
            syn::NestedMeta::Lit(l) => NestedDef::Lit(lit_of(l)),
        });
    }
    out
}

/// Reads a `syn::Lit`: a string literal by its `value`, any other as
/// `Other`. No contract.
#[verifier::external_body]
fn lit_of(l: &syn::Lit) -> LitDef {
    match l {
        syn::Lit::Str(s) => LitDef::Str(s.value()),
        _ => LitDef::Other,
    }
}

} // verus!
