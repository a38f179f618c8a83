//! A model of the input of a derive macro: the struct's name, its fields,
//! their types and their attributes, as plain values, each with its tokens.

use vstd::prelude::*;
use crate::tokens::{literals_known, tokens_view, SpanRef, Token, TokenView};

verus! {

/// A generic argument of a path segment: a type, or anything else
/// (a lifetime, a constant, a binding or a constraint).
#[derive(Debug, PartialEq, Eq)]
pub enum GenericArgument {
    Type(TypeDef),
    Other,
}

/// The arguments of a path segment: none, `<...>`, or `(...) -> ...`.
#[derive(Debug, PartialEq, Eq)]
pub enum PathArguments {
    NoArguments,
    AngleBracketed(Vec<GenericArgument>),
    Parenthesized,
}

/// One segment of a path: its identifier, as written, and its arguments.
#[derive(Debug, PartialEq, Eq)]
pub struct SegmentDef {
    pub ident: String,
    pub arguments: PathArguments,
}

/// A path such as `std::option::Option<T>`.
#[derive(Debug, PartialEq, Eq)]
pub struct PathDef {
    pub segments: Vec<SegmentDef>,
}

/// A type: a path type, or any other kind of type, with the tokens it is
/// written with.
#[derive(Debug, PartialEq, Eq)]
pub enum TypeDef {
    Path { path: PathDef, tokens: Vec<Token> },
    Other { tokens: Vec<Token> },
}

/// A literal inside an attribute: a string literal, with its value, or any
/// other literal.
#[derive(Debug, PartialEq, Eq)]
pub enum LitDef {
    Str(String),
    Other,
}

/// The structured form of an attribute.
#[derive(Debug, PartialEq, Eq)]
pub enum MetaDef {
    Path(PathDef),
    List { path: PathDef, nested: Vec<NestedDef> },
    NameValue { path: PathDef, lit: LitDef },
}

/// An item of the list of a `MetaDef::List`.
#[derive(Debug, PartialEq, Eq)]
pub enum NestedDef {
    Meta(MetaDef),
    Lit(LitDef),
}

#[verifier::external_type_specification]
#[verifier::external_body]
pub struct ExSynAttribute(syn::Attribute);

/// An attribute of a field, with its tokens `#[...]`. Its fields are private
/// to the crate, and only the reading of a derive input makes one: `tokens`
/// is then the model of `syn`'s own tokens for the attribute, so the two
/// fields agree.
#[derive(Debug, PartialEq, Eq)]
pub struct AttrDef {
    pub(crate) tokens: Vec<Token>,
    pub(crate) syn: syn::Attribute,
}

impl View for AttrDef {
    type V = Seq<TokenView>;

    closed spec fn view(&self) -> Seq<TokenView> {
        tokens_view(self.tokens@)
    }
}

impl AttrDef {
    /// The tokens of the attribute.
    pub fn tokens(&self) -> (r: &Vec<Token>)
        ensures
            tokens_view(r@) == self@,
    {
        &self.tokens
    }
}

/// Every literal in every attribute of the fields is a known literal.
pub open spec fn attrs_literals_known(fields: Seq<FieldDef>) -> bool {
    forall|i: int, j: int|
        0 <= i < fields.len() && 0 <= j < fields[i].attrs@.len() ==> literals_known(
            #[trigger] fields[i].attrs@[j]@,
        )
}

/// A field: its name (none for a tuple field) and where the name stands, its
/// type, its attributes and all its tokens.
#[derive(Debug, PartialEq, Eq)]
pub struct FieldDef {
    pub ident: Option<String>,
    pub ident_span: SpanRef,
    pub ty: TypeDef,
    pub attrs: Vec<AttrDef>,
    pub tokens: Vec<Token>,
}

/// The fields of a struct.
#[derive(Debug, PartialEq, Eq)]
pub enum FieldList {
    Named(Vec<FieldDef>),
    Unnamed(Vec<FieldDef>),
    Unit,
}

/// The body of the item the derive is applied to.
#[derive(Debug, PartialEq, Eq)]
pub enum ItemData {
    Struct(FieldList),
    Enum,
    Union,
}

/// The item the derive is applied to: its name, where the name stands, and
/// its body.
#[derive(Debug, PartialEq, Eq)]
pub struct ItemInput {
    pub ident: String,
    pub ident_span: SpanRef,
    pub data: ItemData,
}

/// The text of an optional string.
pub open spec fn opt_str(o: Option<String>) -> Option<Seq<char>> {
    match o {
        Some(s) => Some(s@),
        None => None,
    }
}

/// The spelling `Option`.
pub open spec fn option_word() -> Seq<char> {
    seq!['O', 'p', 't', 'i', 'o', 'n']
}

/// The spelling `Vec`.
pub open spec fn vec_word() -> Seq<char> {
    seq!['V', 'e', 'c']
}

/// The identifier of the first segment of a path.
pub open spec fn first_ident_of(p: PathDef) -> Option<Seq<char>> {
    if p.segments@.len() > 0 {
        Some(p.segments@[0].ident@)
    } else {
        None
    }
}

/// A path type whose first segment is `name`.
pub open spec fn is_path_named(ty: TypeDef, name: Seq<char>) -> bool {
    ty matches TypeDef::Path { path, .. } && first_ident_of(path) == Some(name)
}

/// The single type argument of a one-segment path type such as `Vec<T>`.
pub open spec fn inside_of(ty: TypeDef) -> Option<TypeDef> {
    match ty {
        TypeDef::Path { path, .. } => if path.segments@.len() == 1 {
            match path.segments@[0].arguments {
                PathArguments::AngleBracketed(args) => if args@.len() == 1 {
                    match args@[0] {
                        GenericArgument::Type(inner) => Some(inner),
                        GenericArgument::Other => None,
                    }
                } else {
                    None
                },
                _ => None,
            }
        } else {
            None
        },
        TypeDef::Other { .. } => None,
    }
}

/// The identifier of the first segment of a path, as written.
pub fn get_first_ident(path: &PathDef) -> (r: Option<String>)
    ensures
        opt_str(r) == first_ident_of(*path),
{
    if path.segments.len() > 0 {
        Some(path.segments[0].ident.clone())
    } else {
        None
    }
}

fn path_type_named(ty: &TypeDef, name: &str) -> (b: bool)
    ensures
        b == is_path_named(*ty, name@),
{
    match ty {
        TypeDef::Path { path, .. } => match get_first_ident(path) {
            Some(x) => {
                let word = name.to_owned();
                x == word
            },
            None => false,
        },
        TypeDef::Other { .. } => false,
    }
}

/// Whether the type is a path whose first segment is `Option`.
pub fn is_option(ty: &TypeDef) -> (b: bool)
    ensures
        b == is_path_named(*ty, option_word()),
{
    let word = "Option";
    proof {
        reveal_strlit("Option");
        assert(word@ =~= option_word());
    }
    path_type_named(ty, word)
}

/// Whether the type is a path whose first segment is `Vec`.
pub fn is_vec(ty: &TypeDef) -> (b: bool)
    ensures
        b == is_path_named(*ty, vec_word()),
{
    let word = "Vec";
    proof {
        reveal_strlit("Vec");
        assert(word@ =~= vec_word());
    }
    path_type_named(ty, word)
}

/// The single type argument of a one-segment path type such as `Option<T>`.
pub fn get_inside(ty: &TypeDef) -> (r: Option<&TypeDef>)
    ensures
        r is Some <==> inside_of(*ty) is Some,
        r matches Some(inner) ==> *inner == inside_of(*ty)->Some_0,
{
    match ty {
        TypeDef::Path { path, .. } => {
            if path.segments.len() != 1 {
                return None;
            }
            match &path.segments[0].arguments {
                PathArguments::AngleBracketed(args) => {
                    if args.len() != 1 {
                        return None;
                    }
                    match &args[0] {
                        GenericArgument::Type(inner) => Some(inner),
                        GenericArgument::Other => None,
                    }
                },
                _ => None,
            }
        },
        TypeDef::Other { .. } => None,
    }
}

/// Gives the fields of an item that has named fields.
pub trait FieldsIter<T> {
    /// The item has named fields.
    spec fn has_named_fields(&self) -> bool;

    /// The named fields, in order.
    spec fn named_fields(&self) -> Seq<T>;

    fn fields_iter(&self) -> (r: &Vec<T>)
        requires
            self.has_named_fields(),
        ensures
            r@ == self.named_fields(),
    ;
}

impl FieldsIter<FieldDef> for ItemInput {
    open spec fn has_named_fields(&self) -> bool {
        self.data matches ItemData::Struct(FieldList::Named(_))
    }

    open spec fn named_fields(&self) -> Seq<FieldDef> {
        match self.data {
            ItemData::Struct(FieldList::Named(v)) => v@,
            _ => Seq::empty(),
        }
    }

    fn fields_iter(&self) -> (r: &Vec<FieldDef>) {
        match &self.data {
            ItemData::Struct(FieldList::Named(v)) => v,
            _ => vstd::pervasive::unreached(),
        }
    }
}

} // verus!
