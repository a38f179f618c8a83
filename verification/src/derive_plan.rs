//! The plan of what the `Builder` derive writes for a struct `T` with named
//! fields: a struct `TBuilder` that holds each field as it is set,
//! `T::builder()`, a setter per field, a setter per `#[builder(each = "...")]`
//! that pushes one item, and `build()`, which fails while a required field is
//! unset. FieldList are referred to by their position in the struct.

use vstd::prelude::*;
use crate::derive_input::{
    attrs_literals_known,
    first_ident_of, get_first_ident, is_option, is_path_named, is_vec, option_word, vec_word,
    AttrDef, ItemData, ItemInput, FieldDef, FieldList, FieldsIter, LitDef, MetaDef, NestedDef, PathDef,
    TypeDef,
};
use crate::derive_syntax::{
    derive_input_view, first_ident_view, lemma_nesteds_view_take, lemma_segments_view_index,
    nested_view, nesteds_view, parse_derive_input, parse_meta, segments_view, syn_derive_input,
    syn_meta, LitView, MetaView, NestedMetaView, ParseFailure, ParsedDerive, PathSegmentView,
};
use crate::tokens::{literals_known, TokenInput};

verus! {

/// One `#[builder(each = "name")]`: the position of the field it stands on,
/// and the name of the method that pushes one item.
#[derive(Debug, PartialEq, Eq)]
pub struct EachSetter {
    pub field: usize,
    pub name: String,
}

/// Why the attributes of the fields were refused. `MetaParse` and
/// `ExpectedEach` carry the positions of the field and of its attribute.
#[derive(Debug, PartialEq, Eq)]
pub enum EachError {
    UnnamedField,
    MetaParse { field: usize, attr: usize },
    UnknownAttribute,
    ExpectedEach { field: usize, attr: usize },
}

/// The message of an error: `None` for `MetaParse`, whose message is syn's
/// own (see `AttrDef::meta_error`).
pub open spec fn each_error_message(e: EachError) -> Option<Seq<char>> {
    match e {
        EachError::UnnamedField => Some("Unnamed Field"@),
        EachError::MetaParse { .. } => None,
        EachError::UnknownAttribute => Some("Unknown attribute"@),
        EachError::ExpectedEach { .. } => Some("expected `builder(each = \"...\")`"@),
    }
}

impl EachError {
    /// The message the derive reports for the error; `None` for `MetaParse`,
    /// whose message is syn's own.
    pub fn message(&self) -> (r: Option<String>)
        ensures
            match each_error_message(*self) {
                Some(m) => r matches Some(s) && s@ == m,
                None => r is None,
            },
    {
        match self {
            EachError::UnnamedField => Some("Unnamed Field".to_owned()),
            EachError::MetaParse { .. } => None,
            EachError::UnknownAttribute => Some("Unknown attribute".to_owned()),
            EachError::ExpectedEach { .. } => Some("expected `builder(each = \"...\")`".to_owned()),
        }
    }
}

/// Where reading the attributes of the fields ends: the `each` setters found,
/// a refusal, or a `builder` attribute that is not a list, which the derive
/// does not handle.
pub enum EachOutcome {
    Collected(Seq<(usize, Seq<char>)>),
    Failed(EachError),
    Unhandled,
}

/// The spelling `builder`.
pub open spec fn builder_word() -> Seq<char> {
    seq!['b', 'u', 'i', 'l', 'd', 'e', 'r']
}

/// The spelling `each`.
pub open spec fn each_word() -> Seq<char> {
    seq!['e', 'a', 'c', 'h']
}

/// The suffix `Builder`.
pub open spec fn builder_suffix() -> Seq<char> {
    seq!['B', 'u', 'i', 'l', 'd', 'e', 'r']
}

/// The field positions and names of `each` setters.
pub open spec fn eaches_view(s: Seq<EachSetter>) -> Seq<(usize, Seq<char>)> {
    s.map_values(|e: EachSetter| (e.field, e.name@))
}

/// The path of a `MetaDef`.
pub open spec fn meta_path_view(m: MetaView) -> Seq<PathSegmentView> {
    match m {
        MetaView::Path(p) => p,
        MetaView::List { path, .. } => path,
        MetaView::NameValue { path, .. } => path,
    }
}

/// One item of a `builder(...)` list: `name = "..."` must be named `each`,
/// and adds a setter when its value is a string; other items are skipped.
pub open spec fn nested_step(
    acc: Result<Seq<(usize, Seq<char>)>, EachError>,
    item: NestedMetaView,
    field: usize,
    attr: usize,
) -> Result<Seq<(usize, Seq<char>)>, EachError> {
    match acc {
        Err(e) => Err(e),
        Ok(a) => match item {
            NestedMetaView::Meta(MetaView::NameValue { path, lit }) => {
                if first_ident_view(path) != Some(each_word()) {
                    Err(EachError::ExpectedEach { field, attr })
                } else {
                    match lit {
                        LitView::Str(v) => Ok(a.push((field, v))),
                        LitView::Other => Ok(a),
                    }
                }
            },
            _ => Ok(a),
        },
    }
}

/// The items of a `builder(...)` list, read in order.
pub open spec fn nested_fold(
    acc: Result<Seq<(usize, Seq<char>)>, EachError>,
    items: Seq<NestedMetaView>,
    field: usize,
    attr: usize,
) -> Result<Seq<(usize, Seq<char>)>, EachError>
    decreases items.len(),
{
    if items.len() == 0 {
        acc
    } else {
        nested_step(
            nested_fold(acc, items.drop_last(), field, attr),
            items[items.len() - 1],
            field,
            attr,
        )
    }
}

/// One attribute of a field: syn must read it as a `MetaDef` named `builder`,
/// and a list is read item by item.
pub open spec fn attr_step(acc: EachOutcome, a: AttrDef, field: usize, attr: usize) -> EachOutcome {
    match acc {
        EachOutcome::Collected(found) => match syn_meta(a@) {
            None => EachOutcome::Failed(EachError::MetaParse { field, attr }),
            Some(meta) => if first_ident_view(meta_path_view(meta)) != Some(builder_word()) {
                EachOutcome::Failed(EachError::UnknownAttribute)
            } else {
                match meta {
                    MetaView::List { nested, .. } => match nested_fold(Ok(found), nested, field, attr) {
                        Ok(more) => EachOutcome::Collected(more),
                        Err(e) => EachOutcome::Failed(e),
                    },
                    _ => EachOutcome::Unhandled,
                }
            },
        },
        other => other,
    }
}

/// The attributes of the field at `field`, read in order.
pub open spec fn attrs_fold(acc: EachOutcome, attrs: Seq<AttrDef>, field: usize) -> EachOutcome
    decreases attrs.len(),
{
    if attrs.len() == 0 {
        acc
    } else {
        attr_step(
            attrs_fold(acc, attrs.drop_last(), field),
            attrs[attrs.len() - 1],
            field,
            (attrs.len() - 1) as usize,
        )
    }
}

/// One field: it must have a name; then its attributes are read.
pub open spec fn field_step(acc: EachOutcome, f: FieldDef, field: usize) -> EachOutcome {
    match acc {
        EachOutcome::Collected(found) => if f.ident is None {
            EachOutcome::Failed(EachError::UnnamedField)
        } else {
            attrs_fold(EachOutcome::Collected(found), f.attrs@, field)
        },
        other => other,
    }
}

/// The fields, read in order: where reading their attributes ends.
pub open spec fn each_fold(fields: Seq<FieldDef>) -> EachOutcome
    decreases fields.len(),
{
    if fields.len() == 0 {
        EachOutcome::Collected(Seq::empty())
    } else {
        field_step(each_fold(fields.drop_last()), fields[fields.len() - 1], (fields.len() - 1) as usize)
    }
}

proof fn lemma_eaches_view_push(s: Seq<EachSetter>, e: EachSetter)
    ensures
        eaches_view(s.push(e)) == eaches_view(s).push((e.field, e.name@)),
{
    assert(eaches_view(s.push(e)) =~= eaches_view(s).push((e.field, e.name@)));
}

fn is_named(path: &PathDef, word: &str) -> (b: bool)
    ensures
        b == (first_ident_view(segments_view(path.segments@)) == Some(word@)),
{
    proof {
        if path.segments@.len() > 0 {
            lemma_segments_view_index(path.segments@, 0);
        } else {
            assert(segments_view(path.segments@) =~= Seq::empty());
        }
    }
    match get_first_ident(path) {
        Some(x) => {
            let w = word.to_owned();
            x == w
        },
        None => false,
    }
}

fn collect_nested(
    nested: &Vec<NestedDef>,
    field: usize,
    attr: usize,
    out: &mut Vec<EachSetter>,
) -> (r: Result<(), EachError>)
    ensures
        match nested_fold(Ok(eaches_view(old(out)@)), nesteds_view(nested@), field, attr) {
            Ok(a) => r is Ok && eaches_view(final(out)@) == a,
            Err(e) => r == Err::<(), EachError>(e),
        },
{
    let ghost start = eaches_view(out@);
    let each = "each";
    proof {
        reveal_strlit("each");
        assert(each@ =~= each_word());
        assert(nested@.take(0) =~= Seq::empty());
    }
    let mut k: usize = 0;
    while k < nested.len()
        invariant
            0 <= k <= nested.len(),
            each@ == each_word(),
            start == eaches_view(old(out)@),
            nested_fold(Ok(start), nesteds_view(nested@.take(k as int)), field, attr) == Ok::<
                Seq<(usize, Seq<char>)>,
                EachError,
            >(eaches_view(out@)),
        decreases nested.len() - k,
    {
        proof {
            lemma_nesteds_view_take(nested@, k as int);
            let v = nesteds_view(nested@.take(k as int)).push(nested_view(nested@[k as int]));
            assert(v.drop_last() =~= nesteds_view(nested@.take(k as int)));
        }
        match &nested[k] {
            NestedDef::Meta(MetaDef::NameValue { path, lit }) => {
                if !is_named(path, each) {
                    proof {
                        lemma_nested_err_stays(start, nested@, field, attr, k + 1);
                    }
                    return Err(EachError::ExpectedEach { field, attr });
                }
                match lit {
                    LitDef::Str(v) => {
                        let e = EachSetter { field, name: v.clone() };
                        proof {
                            lemma_eaches_view_push(out@, e);
                        }
                        out.push(e);
                    },
                    LitDef::Other => {},
                }
            },
            _ => {},
        }
        k += 1;
    }
    assert(nested@.take(nested.len() as int) =~= nested@);
    Ok(())
}

proof fn lemma_nested_err_stays(
    start: Seq<(usize, Seq<char>)>,
    items: Seq<NestedDef>,
    field: usize,
    attr: usize,
    k: int,
)
    requires
        0 <= k <= items.len(),
        nested_fold(Ok(start), nesteds_view(items.take(k)), field, attr) is Err,
    ensures
        nested_fold(Ok(start), nesteds_view(items), field, attr) == nested_fold(
            Ok(start),
            nesteds_view(items.take(k)),
            field,
            attr,
        ),
    decreases items.len() - k,
{
    if k < items.len() {
        lemma_nesteds_view_take(items, k);
        let v = nesteds_view(items.take(k)).push(nested_view(items[k]));
        assert(v.drop_last() =~= nesteds_view(items.take(k)));
        lemma_nested_err_stays(start, items, field, attr, k + 1);
    } else {
        assert(items.take(k) =~= items);
    }
}

proof fn lemma_attrs_stop_stays(acc: EachOutcome, items: Seq<AttrDef>, field: usize, k: int)
    requires
        0 <= k <= items.len(),
        !(attrs_fold(acc, items.take(k), field) is Collected),
    ensures
        attrs_fold(acc, items, field) == attrs_fold(acc, items.take(k), field),
    decreases items.len() - k,
{
    if k < items.len() {
        assert(items.take(k + 1).drop_last() =~= items.take(k));
        lemma_attrs_stop_stays(acc, items, field, k + 1);
    } else {
        assert(items.take(k) =~= items);
    }
}

proof fn lemma_fields_stop_stays(items: Seq<FieldDef>, k: int)
    requires
        0 <= k <= items.len(),
        !(each_fold(items.take(k)) is Collected),
    ensures
        each_fold(items) == each_fold(items.take(k)),
    decreases items.len() - k,
{
    if k < items.len() {
        assert(items.take(k + 1).drop_last() =~= items.take(k));
        lemma_fields_stop_stays(items, k + 1);
    } else {
        assert(items.take(k) =~= items);
    }
}

fn meta_path_ref(m: &MetaDef) -> (p: &PathDef)
    ensures
        segments_view(p.segments@) == meta_path_view(crate::derive_syntax::meta_view(*m)),
{
    match m {
        MetaDef::Path(p) => p,
        MetaDef::List { path, .. } => path,
        MetaDef::NameValue { path, .. } => path,
    }
}

fn collect_attrs(attrs: &Vec<AttrDef>, field: usize, out: &mut Vec<EachSetter>) -> (r: Option<
    Result<(), EachError>,
>)
    requires
        forall|j: int| 0 <= j < attrs@.len() ==> literals_known(#[trigger] attrs@[j]@),
    ensures
        match attrs_fold(EachOutcome::Collected(eaches_view(old(out)@)), attrs@, field) {
            EachOutcome::Collected(a) => r == Some(Ok::<(), EachError>(())) && eaches_view(
                final(out)@,
            ) == a,
            EachOutcome::Failed(e) => r == Some(Err::<(), EachError>(e)),
            EachOutcome::Unhandled => r is None,
        },
{
    let ghost start = EachOutcome::Collected(eaches_view(out@));
    let builder = "builder";
    proof {
        reveal_strlit("builder");
        assert(builder@ =~= builder_word());
    }
    let mut j: usize = 0;
    while j < attrs.len()
        invariant
            0 <= j <= attrs.len(),
            builder@ == builder_word(),
            forall|k: int| 0 <= k < attrs@.len() ==> literals_known(#[trigger] attrs@[k]@),
            start == EachOutcome::Collected(eaches_view(old(out)@)),
            attrs_fold(start, attrs@.take(j as int), field) == EachOutcome::Collected(
                eaches_view(out@),
            ),
        decreases attrs.len() - j,
    {
        proof {
            assert(attrs@.take(j + 1).drop_last() =~= attrs@.take(j as int));
            assert(attrs@.take(j + 1)[j as int] == attrs@[j as int]);
        }
        match parse_meta(&attrs[j]) {
            Err(_) => {
                proof {
                    lemma_attrs_stop_stays(start, attrs@, field, j + 1);
                }
                return Some(Err(EachError::MetaParse { field, attr: j }));
            },
            Ok(meta) => {
                if !is_named(meta_path_ref(&meta), builder) {
                    proof {
                        lemma_attrs_stop_stays(start, attrs@, field, j + 1);
                    }
                    return Some(Err(EachError::UnknownAttribute));
                }
                match &meta {
                    MetaDef::List { nested, .. } => {
                        let res = collect_nested(nested, field, j, out);
                        match res {
                            Err(e) => {
                                proof {
                                    lemma_attrs_stop_stays(start, attrs@, field, j + 1);
                                }
                                return Some(Err(e));
                            },
                            Ok(()) => {},
                        }
                    },
                    _ => {
                        proof {
                            lemma_attrs_stop_stays(start, attrs@, field, j + 1);
                        }
                        return None;
                    },
                }
            },
        }
        j += 1;
    }
    assert(attrs@.take(attrs.len() as int) =~= attrs@);
    Some(Ok(()))
}

/// Reads the `builder(each = "...")` attributes of the fields, in order;
/// `None` where a `builder` attribute is not a list.
fn collect_each(fields: &Vec<FieldDef>) -> (r: Option<Result<Vec<EachSetter>, EachError>>)
    requires
        attrs_literals_known(fields@),
    ensures
        match each_fold(fields@) {
            EachOutcome::Collected(a) => r matches Some(Ok(v)) && eaches_view(v@) == a,
            EachOutcome::Failed(e) => r == Some(Err::<Vec<EachSetter>, EachError>(e)),
            EachOutcome::Unhandled => r is None,
        },
{
    let mut out: Vec<EachSetter> = Vec::new();
    let mut i: usize = 0;
    assert(eaches_view(out@) =~= Seq::empty());
    while i < fields.len()
        invariant
            0 <= i <= fields.len(),
            each_fold(fields@.take(i as int)) == EachOutcome::Collected(eaches_view(out@)),
            attrs_literals_known(fields@),
        decreases fields.len() - i,
    {
        proof {
            assert(fields@.take(i + 1).drop_last() =~= fields@.take(i as int));
            assert(fields@.take(i + 1)[i as int] == fields@[i as int]);
        }
        let f = &fields[i];
        if f.ident.is_none() {
            proof {
                lemma_fields_stop_stays(fields@, i + 1);
            }
            return Some(Err(EachError::UnnamedField));
        }
        assert forall|j: int| 0 <= j < f.attrs@.len() implies literals_known(#[trigger] f.attrs@[j]@) by {
            assert(fields@[i as int].attrs@[j]@ == f.attrs@[j]@);
        }
        match collect_attrs(&f.attrs, i, &mut out) {
            Some(Ok(())) => {},
            Some(Err(e)) => {
                proof {
                    lemma_fields_stop_stays(fields@, i + 1);
                }
                return Some(Err(e));
            },
            None => {
                proof {
                    lemma_fields_stop_stays(fields@, i + 1);
                }
                return None;
            },
        }
        i += 1;
    }
    assert(fields@.take(fields.len() as int) =~= fields@);
    Some(Ok(out))
}

/// Reads the `builder(each = "...")` attributes of the fields, in order.
/// Every field must have a name, every attribute must read as `builder(...)`,
/// and every `name = value` item in it must be named `each`; each string
/// value gives an `each` setter.
pub fn get_each(input: &ItemInput) -> (r: Result<Vec<EachSetter>, EachError>)
    requires
        input.has_named_fields(),
        attrs_literals_known(input.named_fields()),
        !(each_fold(input.named_fields()) is Unhandled),
    ensures
        match each_fold(input.named_fields()) {
            EachOutcome::Collected(a) => r matches Ok(v) && eaches_view(v@) == a,
            EachOutcome::Failed(e) => r == Err::<Vec<EachSetter>, EachError>(e),
            EachOutcome::Unhandled => false,
        },
{
    match collect_each(input.fields_iter()) {
        Some(r) => r,
        None => vstd::pervasive::unreached(),
    }
}

/// All the field positions in `a` are below `bound`.
pub open spec fn fields_below(a: Seq<(usize, Seq<char>)>, bound: int) -> bool {
    forall|k: int| 0 <= k < a.len() ==> #[trigger] a[k].0 < bound
}

proof fn lemma_nested_fields_below(
    acc: Seq<(usize, Seq<char>)>,
    items: Seq<NestedMetaView>,
    field: usize,
    attr: usize,
    bound: int,
)
    requires
        fields_below(acc, bound),
        field < bound,
    ensures
        nested_fold(Ok(acc), items, field, attr) matches Ok(a) ==> fields_below(a, bound),
    decreases items.len(),
{
    if items.len() > 0 {
        lemma_nested_fields_below(acc, items.drop_last(), field, attr, bound);
        if let Ok(prev) = nested_fold(Ok(acc), items.drop_last(), field, attr) {
            if let NestedMetaView::Meta(MetaView::NameValue { path, lit: LitView::Str(v) }) = items[items.len() - 1] {
                assert forall|k: int| 0 <= k < prev.push((field, v)).len() implies #[trigger] prev.push((field, v))[k].0 < bound by {
                    if k < prev.len() {
                        assert(prev.push((field, v))[k] == prev[k]);
                    }
                }
            }
        }
    }
}

proof fn lemma_attrs_fields_below(
    acc: Seq<(usize, Seq<char>)>,
    items: Seq<AttrDef>,
    field: usize,
    bound: int,
)
    requires
        fields_below(acc, bound),
        field < bound,
    ensures
        attrs_fold(EachOutcome::Collected(acc), items, field) matches EachOutcome::Collected(a)
            ==> fields_below(a, bound),
    decreases items.len(),
{
    if items.len() > 0 {
        lemma_attrs_fields_below(acc, items.drop_last(), field, bound);
        if let EachOutcome::Collected(prev) = attrs_fold(
            EachOutcome::Collected(acc),
            items.drop_last(),
            field,
        ) {
            if let Some(MetaView::List { nested, .. }) = syn_meta(items[items.len() - 1]@) {
                lemma_nested_fields_below(prev, nested, field, (items.len() - 1) as usize, bound);
            }
        }
    }
}

proof fn lemma_each_fields_below(fields: Seq<FieldDef>)
    ensures
        each_fold(fields) matches EachOutcome::Collected(a) ==> fields_below(a, fields.len() as int),
    decreases fields.len(),
{
    if fields.len() > 0 {
        lemma_each_fields_below(fields.drop_last());
        if let EachOutcome::Collected(prev) = each_fold(fields.drop_last()) {
            lemma_attrs_fields_below(
                prev,
                fields[fields.len() - 1].attrs@,
                (fields.len() - 1) as usize,
                fields.len() as int,
            );
        }
    }
}

/// A field that must be set before `build`: its type is neither an `Option`
/// nor a `Vec`.
pub open spec fn is_required(t: TypeDef) -> bool {
    !is_path_named(t, option_word()) && !is_path_named(t, vec_word())
}

fn required(t: &TypeDef) -> (b: bool)
    ensures
        b == is_required(*t),
{
    !is_option(t) && !is_vec(t)
}

/// `T` followed by `Builder`.
fn builder_name(ident: &String) -> (r: String)
    ensures
        r@ == ident@ + builder_suffix(),
{
    let mut name = ident.clone();
    let suffix = "Builder";
    proof {
        reveal_strlit("Builder");
        assert(suffix@ =~= builder_suffix());
    }
    name.append(suffix);
    name
}

/// A field of `TBuilder`: the field of `T` at `field`, with its type wrapped
/// in `std::option::Option` when `wrap_in_option`.
#[derive(Debug, Clone, Copy, PartialEq, Eq)]
pub struct BuilderField {
    pub field: usize,
    pub wrap_in_option: bool,
}

/// The struct `TBuilder`.
#[derive(Debug, PartialEq, Eq)]
pub struct BuilderStruct {
    pub name: String,
    pub fields: Vec<BuilderField>,
}

/// `s` is the builder struct for `input`: named `TBuilder`, with one field per
/// field of `T`, in order, whose type is wrapped in an `Option` exactly when
/// the field is required.
pub open spec fn is_builder_struct_of(input: ItemInput, s: BuilderStruct) -> bool {
    let fs = input.named_fields();
    &&& s.name@ == input.ident@ + builder_suffix()
    &&& s.fields@.len() == fs.len()
    &&& forall|i: int|
        0 <= i < fs.len() ==> #[trigger] s.fields@[i] == (BuilderField {
            field: i as usize,
            wrap_in_option: is_required(fs[i].ty),
        })
}

/// The struct `TBuilder`.
pub fn get_struct(input: &ItemInput) -> (r: BuilderStruct)
    requires
        input.has_named_fields(),
    ensures
        is_builder_struct_of(*input, r),
{
    let fields = input.fields_iter();
    let mut out: Vec<BuilderField> = Vec::new();
    let mut i: usize = 0;
    while i < fields.len()
        invariant
            0 <= i <= fields.len(),
            fields@ == input.named_fields(),
            out@.len() == i,
            forall|k: int|
                0 <= k < i ==> #[trigger] out@[k] == (BuilderField {
                    field: k as usize,
                    wrap_in_option: is_required(fields@[k].ty),
                }),
        decreases fields.len() - i,
    {
        out.push(BuilderField { field: i, wrap_in_option: required(&fields[i].ty) });
        i += 1;
    }
    BuilderStruct { name: builder_name(&input.ident), fields: out }
}

/// How `T::builder()` starts a field: an empty `Vec` for a `Vec` field,
/// `None` for any other.
#[derive(Debug, Clone, Copy, PartialEq, Eq)]
pub struct FieldInit {
    pub field: usize,
    pub empty_vec: bool,
}

/// The method `T::builder()`, which returns a `TBuilder`.
#[derive(Debug, PartialEq, Eq)]
pub struct BuilderCtor {
    pub builder_name: String,
    pub inits: Vec<FieldInit>,
}

/// `impl T { builder() }`.
#[derive(Debug, PartialEq, Eq)]
pub struct TImpl {
    pub target: String,
    pub builder: BuilderCtor,
}

/// `c` is `T::builder()` for `input`: it makes a `TBuilder` with each field,
/// in order, an empty `Vec` when its type is a `Vec` and `None` otherwise.
pub open spec fn is_builder_ctor_of(input: ItemInput, c: BuilderCtor) -> bool {
    let fs = input.named_fields();
    &&& c.builder_name@ == input.ident@ + builder_suffix()
    &&& c.inits@.len() == fs.len()
    &&& forall|i: int|
        0 <= i < fs.len() ==> #[trigger] c.inits@[i] == (FieldInit {
            field: i as usize,
            empty_vec: is_path_named(fs[i].ty, vec_word()),
        })
}

fn builder(input: &ItemInput) -> (r: BuilderCtor)
    requires
        input.has_named_fields(),
    ensures
        is_builder_ctor_of(*input, r),
{
    let fields = input.fields_iter();
    let mut out: Vec<FieldInit> = Vec::new();
    let mut i: usize = 0;
    while i < fields.len()
        invariant
            0 <= i <= fields.len(),
            fields@ == input.named_fields(),
            out@.len() == i,
            forall|k: int|
                0 <= k < i ==> #[trigger] out@[k] == (FieldInit {
                    field: k as usize,
                    empty_vec: is_path_named(fields@[k].ty, vec_word()),
                }),
        decreases fields.len() - i,
    {
        out.push(FieldInit { field: i, empty_vec: is_vec(&fields[i].ty) });
        i += 1;
    }
    BuilderCtor { builder_name: builder_name(&input.ident), inits: out }
}

/// `impl T { pub fn builder() -> TBuilder }`.
pub fn get_t_impl(input: &ItemInput) -> (r: TImpl)
    requires
        input.has_named_fields(),
    ensures
        r.target@ == input.ident@,
        is_builder_ctor_of(*input, r.builder),
{
    TImpl { target: input.ident.clone(), builder: builder(input) }
}

/// The parameter type of a setter: the field's own type, or the type argument
/// that `get_inside` finds in the field's `Option` type (none where it finds
/// none).
#[derive(Debug, Clone, Copy, PartialEq, Eq)]
pub enum SetterParam {
    FieldType,
    InnerType,
}

/// A setter `fn name(&mut self, name: P) -> &mut Self` for the field at
/// `field`; it stores `Some(name)` when `wrap_in_some`, else `name` itself.
#[derive(Debug, Clone, Copy, PartialEq, Eq)]
pub struct Setter {
    pub field: usize,
    pub param: SetterParam,
    pub wrap_in_some: bool,
}

/// The setter of a field: an `Option<X>` field takes an `X` and stores
/// `Some`; a `Vec` field takes the whole `Vec`; any other field takes its
/// type and stores `Some`.
pub open spec fn setter_for(f: FieldDef, i: usize) -> Setter {
    if is_path_named(f.ty, option_word()) {
        Setter { field: i, param: SetterParam::InnerType, wrap_in_some: true }
    } else if is_path_named(f.ty, vec_word()) {
        Setter { field: i, param: SetterParam::FieldType, wrap_in_some: false }
    } else {
        Setter { field: i, param: SetterParam::FieldType, wrap_in_some: true }
    }
}

/// The setters, in field order: one per named field whose name is not the
/// name of an `each` setter.
pub open spec fn setters_spec(fields: Seq<FieldDef>, omitted: Seq<Seq<char>>) -> Seq<Setter>
    decreases fields.len(),
{
    if fields.len() == 0 {
        Seq::empty()
    } else {
        let prev = setters_spec(fields.drop_last(), omitted);
        let f = fields[fields.len() - 1];
        if f.ident is None || omitted.contains(f.ident->Some_0@) {
            prev
        } else {
            prev.push(setter_for(f, (fields.len() - 1) as usize))
        }
    }
}

/// The names of the `each` setters.
pub open spec fn each_names(each: Seq<(usize, Seq<char>)>) -> Seq<Seq<char>> {
    each.map_values(|e: (usize, Seq<char>)| e.1)
}

fn setter_for_field(f: &FieldDef, i: usize) -> (r: Setter)
    ensures
        r == setter_for(*f, i),
{
    if is_option(&f.ty) {
        Setter { field: i, param: SetterParam::InnerType, wrap_in_some: true }
    } else if is_vec(&f.ty) {
        Setter { field: i, param: SetterParam::FieldType, wrap_in_some: false }
    } else {
        Setter { field: i, param: SetterParam::FieldType, wrap_in_some: true }
    }
}

fn names_contain(oaat: &Vec<EachSetter>, name: &String) -> (b: bool)
    ensures
        b == each_names(eaches_view(oaat@)).contains(name@),
{
    let ghost names = each_names(eaches_view(oaat@));
    let mut k: usize = 0;
    while k < oaat.len()
        invariant
            0 <= k <= oaat.len(),
            names == each_names(eaches_view(oaat@)),
            names.len() == oaat.len(),
            forall|m: int| 0 <= m < k ==> names[m] != name@,
        decreases oaat.len() - k,
    {
        assert(names[k as int] == oaat@[k as int].name@);
        if oaat[k].name == *name {
            return true;
        }
        k += 1;
    }
    false
}

fn setter(input: &ItemInput, oaat: &Vec<EachSetter>) -> (r: Vec<Setter>)
    requires
        input.has_named_fields(),
    ensures
        r@ == setters_spec(input.named_fields(), each_names(eaches_view(oaat@))),
{
    let fields = input.fields_iter();
    let ghost omitted = each_names(eaches_view(oaat@));
    let mut out: Vec<Setter> = Vec::new();
    let mut i: usize = 0;
    while i < fields.len()
        invariant
            0 <= i <= fields.len(),
            fields@ == input.named_fields(),
            omitted == each_names(eaches_view(oaat@)),
            out@ == setters_spec(fields@.take(i as int), omitted),
        decreases fields.len() - i,
    {
        proof {
            assert(fields@.take(i + 1).drop_last() =~= fields@.take(i as int));
            assert(fields@.take(i + 1)[i as int] == fields@[i as int]);
        }
        let f = &fields[i];
        match &f.ident {
            Some(name) => {
                if !names_contain(oaat, name) {
                    out.push(setter_for_field(f, i));
                }
            },
            None => {},
        }
        i += 1;
    }
    assert(fields@.take(fields.len() as int) =~= fields@);
    out
}

/// A field of the value that `build` makes: a clone of the builder's field,
/// unwrapped from its `Option` when `unwrap`.
#[derive(Debug, Clone, Copy, PartialEq, Eq)]
pub struct BuildField {
    pub field: usize,
    pub unwrap: bool,
}

/// The method `build(&mut self) -> Result<T, Box<dyn Error>>`: it fails with
/// `Unspecify field` while a field in `required` is unset, else makes a `T`.
#[derive(Debug, PartialEq, Eq)]
pub struct BuildPlan {
    pub target: String,
    pub required: Vec<usize>,
    pub fields: Vec<BuildField>,
}

/// The positions of the required fields, in order.
pub open spec fn required_spec(fields: Seq<FieldDef>) -> Seq<usize>
    decreases fields.len(),
{
    if fields.len() == 0 {
        Seq::empty()
    } else if is_required(fields[fields.len() - 1].ty) {
        required_spec(fields.drop_last()).push((fields.len() - 1) as usize)
    } else {
        required_spec(fields.drop_last())
    }
}

/// `b` is `build` for `input`: it checks the required fields in order, and
/// makes a `T` from a clone of each field, in order, unwrapping the required
/// ones.
pub open spec fn is_build_of(input: ItemInput, b: BuildPlan) -> bool {
    let fs = input.named_fields();
    &&& b.target@ == input.ident@
    &&& b.required@ == required_spec(fs)
    &&& b.fields@.len() == fs.len()
    &&& forall|i: int|
        0 <= i < fs.len() ==> #[trigger] b.fields@[i] == (BuildField {
            field: i as usize,
            unwrap: is_required(fs[i].ty),
        })
}

fn build_fn(input: &ItemInput) -> (r: BuildPlan)
    requires
        input.has_named_fields(),
    ensures
        is_build_of(*input, r),
{
    let fields = input.fields_iter();
    let mut req: Vec<usize> = Vec::new();
    let mut out: Vec<BuildField> = Vec::new();
    let mut i: usize = 0;
    while i < fields.len()
        invariant
            0 <= i <= fields.len(),
            fields@ == input.named_fields(),
            req@ == required_spec(fields@.take(i as int)),
            out@.len() == i,
            forall|k: int|
                0 <= k < i ==> #[trigger] out@[k] == (BuildField {
                    field: k as usize,
                    unwrap: is_required(fields@[k].ty),
                }),
        decreases fields.len() - i,
    {
        proof {
            assert(fields@.take(i + 1).drop_last() =~= fields@.take(i as int));
            assert(fields@.take(i + 1)[i as int] == fields@[i as int]);
        }
        let needed = required(&fields[i].ty);
        if needed {
            req.push(i);
        }
        out.push(BuildField { field: i, unwrap: needed });
        i += 1;
    }
    assert(fields@.take(fields.len() as int) =~= fields@);
    BuildPlan { target: input.ident.clone(), required: req, fields: out }
}

/// A method `fn name(&mut self, value: X) -> &mut Self` that pushes `value`
/// onto the `Vec` field at `field`; `X` is the type argument that
/// `get_inside` finds in the field's type (none where it finds none).
#[derive(Debug, PartialEq, Eq)]
pub struct EachMethod {
    pub field: usize,
    pub name: String,
}

/// `m` are the `each` methods for the setters `each`, in order.
pub open spec fn are_each_methods_of(
    fields: Seq<FieldDef>,
    each: Seq<(usize, Seq<char>)>,
    m: Seq<EachMethod>,
) -> bool {
    &&& m.len() == each.len()
    &&& forall|k: int|
        0 <= k < each.len() ==> {
            &&& (#[trigger] m[k]).field == each[k].0
            &&& m[k].name@ == each[k].1
        }
}

fn oaat_fn(input: &ItemInput, oaat: &Vec<EachSetter>) -> (r: Vec<EachMethod>)
    requires
        input.has_named_fields(),
        fields_below(eaches_view(oaat@), input.named_fields().len() as int),
    ensures
        are_each_methods_of(input.named_fields(), eaches_view(oaat@), r@),
{
    let fields = input.fields_iter();
    let ghost each = eaches_view(oaat@);
    let mut out: Vec<EachMethod> = Vec::new();
    let mut k: usize = 0;
    while k < oaat.len()
        invariant
            0 <= k <= oaat.len(),
            fields@ == input.named_fields(),
            each == eaches_view(oaat@),
            each.len() == oaat.len(),
            fields_below(each, fields.len() as int),
            out@.len() == k,
            forall|m: int|
                0 <= m < k ==> {
                    &&& (#[trigger] out@[m]).field == each[m].0
                    &&& out@[m].name@ == each[m].1
                },
        decreases oaat.len() - k,
    {
        let e = &oaat[k];
        assert(each[k as int] == (e.field, e.name@));
        assert(each[k as int].0 < fields.len());
        out.push(
            EachMethod { field: e.field, name: e.name.clone() },
        );
        k += 1;
    }
    out
}

/// `impl TBuilder { setters, build, each methods }`.
#[derive(Debug, PartialEq, Eq)]
pub struct BuilderImpl {
    pub builder_name: String,
    pub setters: Vec<Setter>,
    pub build: BuildPlan,
    pub each_methods: Vec<EachMethod>,
}

/// `b` is `impl TBuilder` for `input` and the `each` setters `each`.
pub open spec fn is_builder_impl_of(
    input: ItemInput,
    each: Seq<(usize, Seq<char>)>,
    b: BuilderImpl,
) -> bool {
    &&& b.builder_name@ == input.ident@ + builder_suffix()
    &&& b.setters@ == setters_spec(input.named_fields(), each_names(each))
    &&& is_build_of(input, b.build)
    &&& are_each_methods_of(input.named_fields(), each, b.each_methods@)
}

/// `impl TBuilder`: a setter per field that no `each` setter is named after,
/// `build`, and a method per `each` setter.
pub fn get_tbuilder_impl(input: &ItemInput, oaat_fields: &Vec<EachSetter>) -> (r: BuilderImpl)
    requires
        input.has_named_fields(),
        fields_below(eaches_view(oaat_fields@), input.named_fields().len() as int),
    ensures
        is_builder_impl_of(*input, eaches_view(oaat_fields@), r),
{
    BuilderImpl {
        builder_name: builder_name(&input.ident),
        setters: setter(input, oaat_fields),
        build: build_fn(input),
        each_methods: oaat_fn(input, oaat_fields),
    }
}

/// All that the derive writes: `TBuilder`, `impl T` and `impl TBuilder`.
#[derive(Debug, PartialEq, Eq)]
pub struct Expansion {
    pub builder_struct: BuilderStruct,
    pub t_impl: TImpl,
    pub builder_impl: BuilderImpl,
}

/// `r` is the derive on `input`: `None` where it does not handle the input
/// (not a struct with named fields, or a `builder` attribute that is not a
/// list); the refusal of the attributes; or what it writes.
pub open spec fn is_derive_of(input: ItemInput, r: Option<Result<Expansion, EachError>>) -> bool {
    &&& (r is None <==> (!input.has_named_fields() || each_fold(input.named_fields()) is Unhandled))
    &&& (r matches Some(Err(e)) ==> each_fold(input.named_fields()) == EachOutcome::Failed(e))
    &&& (r matches Some(Ok(x)) ==> each_fold(input.named_fields()) matches EachOutcome::Collected(
        each,
    ) && is_builder_struct_of(input, x.builder_struct) && x.t_impl.target@ == input.ident@
        && is_builder_ctor_of(input, x.t_impl.builder) && is_builder_impl_of(
        input,
        each,
        x.builder_impl,
    ))
}

/// The derive on `input`: `None` where it does not handle the input (not a
/// struct with named fields, or a `builder` attribute that is not a list);
/// the refusal of the attributes; or what it writes.
pub fn derive(input: &ItemInput) -> (r: Option<Result<Expansion, EachError>>)
    requires
        attrs_literals_known(input.named_fields()),
    ensures
        is_derive_of(*input, r),
{
    let named = match &input.data {
        ItemData::Struct(FieldList::Named(_)) => true,
        _ => false,
    };
    if !named {
        return None;
    }
    if collect_each(input.fields_iter()).is_none() {
        return None;
    }
    let oaat = match get_each(input) {
        Err(e) => {
            return Some(Err(e));
        },
        Ok(v) => v,
    };
    proof {
        lemma_each_fields_below(input.named_fields());
    }
    let builder_struct = get_struct(input);
    let t_impl = get_t_impl(input);
    let builder_impl = get_tbuilder_impl(input, &oaat);
    Some(Ok(Expansion { builder_struct, t_impl, builder_impl }))
}

/// The derive on the tokens of its input: syn's refusal of the tokens as a
/// derive input, or the input as syn reads it together with the derive on
/// it.
pub fn derive_tokens(tokens: &TokenInput) -> (r: Result<
    (ParsedDerive, Option<Result<Expansion, EachError>>),
    ParseFailure,
>)
    requires
        literals_known(tokens@),
    ensures
        r is Err <==> syn_derive_input(tokens@) is None,
        r matches Ok((p, out)) ==> syn_derive_input(tokens@) == Some(derive_input_view(p.input))
            && is_derive_of(p.input, out),
{
    match parse_derive_input(tokens) {
        Err(e) => Err(e),
        Ok(p) => {
            let out = derive(&p.input);
            Ok((p, out))
        },
    }
}

/// The derive on the tokens of its input where every literal of the input is
/// a known one (syn panics on any other); `None` where one is not.
pub fn try_derive_tokens(tokens: &TokenInput) -> (r: Option<
    Result<(ParsedDerive, Option<Result<Expansion, EachError>>), ParseFailure>,
>)
    ensures
        r is Some <==> literals_known(tokens@),
        r matches Some(x) ==> (x is Err <==> syn_derive_input(tokens@) is None),
        r matches Some(Ok((p, out))) ==> syn_derive_input(tokens@) == Some(
            derive_input_view(p.input),
        ) && is_derive_of(p.input, out),
{
    if tokens.has_known_literals() {
        Some(derive_tokens(tokens))
    } else {
        None
    }
}

proof fn lemma_required_spec_contains(fields: Seq<FieldDef>, i: int)
    requires
        0 <= i < fields.len(),
        fields.len() <= usize::MAX,
    ensures
        required_spec(fields).contains(i as usize) <==> is_required(fields[i].ty),
    decreases fields.len(),
{
    let last = fields.len() - 1;
    let prev = required_spec(fields.drop_last());
    let pp = prev.push(last as usize);
    lemma_required_below(fields.drop_last());
    if i < last {
        lemma_required_spec_contains(fields.drop_last(), i);
        assert(fields.drop_last()[i] == fields[i]);
        if is_required(fields[last].ty) {
            if pp.contains(i as usize) {
                let k = choose|k: int| 0 <= k < pp.len() && #[trigger] pp[k] == i as usize;
                if k < prev.len() {
                    assert(prev[k] == i as usize);
                }
            }
            if prev.contains(i as usize) {
                let k = choose|k: int| 0 <= k < prev.len() && #[trigger] prev[k] == i as usize;
                assert(pp[k] == i as usize);
            }
        }
    } else {
        if is_required(fields[last].ty) {
            assert(pp[prev.len() as int] == last as usize);
        } else {
            if prev.contains(i as usize) {
                let k = choose|k: int| 0 <= k < prev.len() && #[trigger] prev[k] == i as usize;
                assert(prev[k] < fields.drop_last().len());
            }
        }
    }
}

proof fn lemma_required_below(fields: Seq<FieldDef>)
    requires
        fields.len() <= usize::MAX,
    ensures
        forall|k: int| 0 <= k < required_spec(fields).len() ==> #[trigger] required_spec(fields)[k] < fields.len(),
    decreases fields.len(),
{
    if fields.len() > 0 {
        lemma_required_below(fields.drop_last());
        let prev = required_spec(fields.drop_last());
        if is_required(fields[fields.len() - 1].ty) {
            assert forall|k: int| 0 <= k < prev.push((fields.len() - 1) as usize).len() implies #[trigger] prev.push((fields.len() - 1) as usize)[k] < fields.len() by {
                if k < prev.len() {
                    assert(prev.push((fields.len() - 1) as usize)[k] == prev[k]);
                }
            }
        }
    }
}

/// `build` checks exactly the fields that `TBuilder` holds wrapped in an
/// `Option`, and unwraps exactly those: the builder struct and `build` agree
/// field by field.
pub proof fn lemma_build_checks_what_the_struct_wraps(
    input: ItemInput,
    s: BuilderStruct,
    b: BuildPlan,
    i: int,
)
    requires
        input.has_named_fields(),
        input.named_fields().len() <= usize::MAX,
        is_builder_struct_of(input, s),
        is_build_of(input, b),
        0 <= i < input.named_fields().len(),
    ensures
        s.fields@[i].wrap_in_option == b.fields@[i].unwrap,
        b.required@.contains(i as usize) <==> s.fields@[i].wrap_in_option,
{
    lemma_required_spec_contains(input.named_fields(), i);
}

/// `T::builder()` starts with an empty `Vec` only fields that `TBuilder` holds
/// as they are, and with `None` every field that it wraps in an `Option`.
pub proof fn lemma_ctor_agrees_with_struct(input: ItemInput, s: BuilderStruct, c: BuilderCtor, i: int)
    requires
        input.has_named_fields(),
        is_builder_struct_of(input, s),
        is_builder_ctor_of(input, c),
        0 <= i < input.named_fields().len(),
    ensures
        c.inits@[i].empty_vec ==> !s.fields@[i].wrap_in_option,
        s.fields@[i].wrap_in_option ==> !c.inits@[i].empty_vec,
        s.name@ == c.builder_name@,
{
}

/// No setter is named like an `each` method: each setter stands for a named
/// field whose name is not the name of an `each` setter.
pub proof fn lemma_setters_avoid_each_names(fields: Seq<FieldDef>, names: Seq<Seq<char>>, k: int)
    requires
        fields.len() <= usize::MAX,
        0 <= k < setters_spec(fields, names).len(),
    ensures
        setters_spec(fields, names)[k].field < fields.len(),
        fields[setters_spec(fields, names)[k].field as int].ident is Some,
        !names.contains(fields[setters_spec(fields, names)[k].field as int].ident->Some_0@),
    decreases fields.len(),
{
    let prev = setters_spec(fields.drop_last(), names);
    let f = fields[fields.len() - 1];
    if k < prev.len() {
        lemma_setters_avoid_each_names(fields.drop_last(), names, k);
        if !(f.ident is None || names.contains(f.ident->Some_0@)) {
            assert(setters_spec(fields, names)[k] == prev[k]);
        }
        assert(fields.drop_last()[prev[k].field as int] == fields[prev[k].field as int]);
    } else {
        assert(setter_for(f, (fields.len() - 1) as usize).field == fields.len() - 1);
    }
}

proof fn lemma_setters_spec_entry(fields: Seq<FieldDef>, names: Seq<Seq<char>>, k: int)
    requires
        fields.len() <= usize::MAX,
        0 <= k < setters_spec(fields, names).len(),
    ensures
        setters_spec(fields, names)[k].field < fields.len(),
        setters_spec(fields, names)[k] == setter_for(
            fields[setters_spec(fields, names)[k].field as int],
            setters_spec(fields, names)[k].field,
        ),
    decreases fields.len(),
{
    let prev = setters_spec(fields.drop_last(), names);
    let f = fields[fields.len() - 1];
    if k < prev.len() {
        lemma_setters_spec_entry(fields.drop_last(), names, k);
        if !(f.ident is None || names.contains(f.ident->Some_0@)) {
            assert(setters_spec(fields, names)[k] == prev[k]);
        }
        assert(fields.drop_last()[prev[k].field as int] == fields[prev[k].field as int]);
    }
}

/// Each setter stores what `TBuilder` holds for its field: it wraps the value
/// in `Some` exactly when the builder's field is an `Option` (a field that
/// `TBuilder` wraps, or one whose own type is an `Option`), that is, for
/// every field but a `Vec`; and it takes the `Option`'s argument exactly for
/// an `Option` field.
pub proof fn lemma_setter_stores_what_the_builder_holds(
    input: ItemInput,
    each: Seq<(usize, Seq<char>)>,
    s: BuilderStruct,
    b: BuilderImpl,
    k: int,
)
    requires
        input.has_named_fields(),
        input.named_fields().len() <= usize::MAX,
        is_builder_struct_of(input, s),
        is_builder_impl_of(input, each, b),
        0 <= k < b.setters@.len(),
    ensures
        b.setters@[k].field < input.named_fields().len(),
        b.setters@[k].wrap_in_some == (s.fields@[b.setters@[k].field as int].wrap_in_option
            || is_path_named(input.named_fields()[b.setters@[k].field as int].ty, option_word())),
        b.setters@[k].wrap_in_some == !is_path_named(
            input.named_fields()[b.setters@[k].field as int].ty,
            vec_word(),
        ),
        (b.setters@[k].param == SetterParam::InnerType) == is_path_named(
            input.named_fields()[b.setters@[k].field as int].ty,
            option_word(),
        ),
{
    lemma_setters_spec_entry(input.named_fields(), each_names(each), k);
    let i = b.setters@[k].field as int;
    assert(s.fields@[i].wrap_in_option == is_required(input.named_fields()[i].ty));
}

/// A field whose type is neither an `Option` nor a `Vec` (any other path
/// type, whatever its arguments, or any other kind of type) must be set:
/// `TBuilder` holds it in an `Option`, `build` checks it and unwraps it. An
/// `Option` or `Vec` field is held as it is and never checked.
pub proof fn lemma_other_fields_must_be_set(input: ItemInput, s: BuilderStruct, b: BuildPlan, i: int)
    requires
        input.has_named_fields(),
        input.named_fields().len() <= usize::MAX,
        is_builder_struct_of(input, s),
        is_build_of(input, b),
        0 <= i < input.named_fields().len(),
    ensures
        ({
            let ty = input.named_fields()[i].ty;
            let plain = !is_path_named(ty, option_word()) && !is_path_named(ty, vec_word());
            &&& s.fields@[i].wrap_in_option == plain
            &&& b.fields@[i].unwrap == plain
            &&& b.required@.contains(i as usize) == plain
        }),
{
    lemma_required_spec_contains(input.named_fields(), i);
}

} // verus!
