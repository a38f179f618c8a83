use builder_seq::derive_input::{
    get_first_ident, get_inside, is_option, is_vec, FieldDef, FieldList, GenericArgument, ItemData,
    ItemInput, PathArguments, PathDef, SegmentDef, TypeDef,
};
use builder_seq::derive_plan::{
    derive_tokens, try_derive_tokens, get_each, get_struct, get_t_impl, get_tbuilder_impl, BuildField, BuilderField,
    EachError, EachSetter, Expansion, FieldInit, Setter, SetterParam,
};
use builder_seq::derive_syntax::ParsedDerive;
use builder_seq::tokens::{SpanRef, Token, TokenInput};

fn read(src: &str) -> TokenInput {
    TokenInput::from_stream(src.parse::<proc_macro2::TokenStream>().unwrap())
}

fn parsed(src: &str) -> (ParsedDerive, Option<Result<Expansion, EachError>>) {
    match derive_tokens(&read(src)) {
        Ok(x) => x,
        Err(e) => panic!("refused: {:?}", e),
    }
}

fn outcome(src: &str) -> Option<Result<Expansion, EachError>> {
    parsed(src).1
}

const COMMAND: &str = r#"
    pub struct Command {
        executable: String,
        #[builder(each = "arg")]
        args: Vec<String>,
        #[builder(each = "env")]
        env: Vec<String>,
        current_dir: Option<String>,
    }
"#;

fn first_token_text(t: &TypeDef) -> String {
    let tokens = match t {
        TypeDef::Path { tokens, .. } => tokens,
        TypeDef::Other { tokens } => tokens,
    };
    match &tokens[0] {
        Token::Ident { text, .. } => text.clone(),
        other => panic!("unexpected {:?}", other),
    }
}

fn named_fields(input: &ItemInput) -> &Vec<FieldDef> {
    match &input.data {
        ItemData::Struct(FieldList::Named(v)) => v,
        _ => panic!("no named fields"),
    }
}

#[test]
fn command_plan_matches_the_written_out_builder() {
    let (p, out) = parsed(COMMAND);
    let x = out.unwrap().unwrap();
    assert_eq!(p.input.ident, "Command");
    assert_eq!(x.builder_struct.name, "CommandBuilder");
    assert_eq!(
        x.builder_struct.fields,
        vec![
            BuilderField { field: 0, wrap_in_option: true },
            BuilderField { field: 1, wrap_in_option: false },
            BuilderField { field: 2, wrap_in_option: false },
            BuilderField { field: 3, wrap_in_option: false },
        ]
    );
    assert_eq!(x.t_impl.target, "Command");
    assert_eq!(x.t_impl.builder.builder_name, "CommandBuilder");
    assert_eq!(
        x.t_impl.builder.inits,
        vec![
            FieldInit { field: 0, empty_vec: false },
            FieldInit { field: 1, empty_vec: true },
            FieldInit { field: 2, empty_vec: true },
            FieldInit { field: 3, empty_vec: false },
        ]
    );
    let b = &x.builder_impl;
    assert_eq!(b.builder_name, "CommandBuilder");
    assert_eq!(
        b.setters,
        vec![
            Setter { field: 0, param: SetterParam::FieldType, wrap_in_some: true },
            Setter { field: 1, param: SetterParam::FieldType, wrap_in_some: false },
            Setter { field: 3, param: SetterParam::InnerType, wrap_in_some: true },
        ]
    );
    assert_eq!(b.build.target, "Command");
    assert_eq!(b.build.required, vec![0]);
    assert_eq!(
        b.build.fields,
        vec![
            BuildField { field: 0, unwrap: true },
            BuildField { field: 1, unwrap: false },
            BuildField { field: 2, unwrap: false },
            BuildField { field: 3, unwrap: false },
        ]
    );
    assert_eq!(b.each_methods.len(), 2);
    assert_eq!((b.each_methods[0].field, b.each_methods[0].name.as_str()), (1, "arg"));
    assert_eq!((b.each_methods[1].field, b.each_methods[1].name.as_str()), (2, "env"));
    let fields = named_fields(&p.input);
    assert_eq!(first_token_text(get_inside(&fields[1].ty).unwrap()), "String");
    assert_eq!(first_token_text(get_inside(&fields[3].ty).unwrap()), "String");
}

#[test]
fn get_each_lists_the_each_setters() {
    let (p, _) = parsed(COMMAND);
    assert_eq!(
        get_each(&p.input).unwrap(),
        vec![
            EachSetter { field: 1, name: "arg".to_string() },
            EachSetter { field: 2, name: "env".to_string() },
        ]
    );
}

#[test]
fn parts_agree_with_derive() {
    let (p, out) = parsed(COMMAND);
    let x = out.unwrap().unwrap();
    assert_eq!(get_struct(&p.input), x.builder_struct);
    assert_eq!(get_t_impl(&p.input), x.t_impl);
    assert_eq!(get_tbuilder_impl(&p.input, &get_each(&p.input).unwrap()), x.builder_impl);
}

#[test]
fn tokens_that_are_no_item_are_refused() {
    assert!(derive_tokens(&read("struct { a: u8 }")).is_err());
    assert!(derive_tokens(&read("fn f() {}")).is_err());
}

#[test]
fn unhandled_inputs() {
    assert!(outcome("struct T(u8);").is_none());
    assert!(outcome("enum E { A }").is_none());
    assert!(outcome("struct T { #[builder] a: u8 }").is_none());
    assert!(outcome("struct T { #[builder = \"x\"] a: u8 }").is_none());
}

#[test]
fn refusals() {
    let unnamed = ItemInput {
        ident: "T".to_string(),
        ident_span: SpanRef::CallSite,
        data: ItemData::Struct(FieldList::Named(vec![FieldDef {
            ident: None,
            ident_span: SpanRef::CallSite,
            ty: TypeDef::Other { tokens: vec![] },
            attrs: vec![],
            tokens: vec![],
        }])),
    };
    assert_eq!(builder_seq::derive_plan::derive(&unnamed), Some(Err(EachError::UnnamedField)));
    assert_eq!(outcome("struct T { #[doc = \"x\"] a: u8 }"), Some(Err(EachError::UnknownAttribute)));
    assert_eq!(outcome("struct T { /// text\n a: u8 }"), Some(Err(EachError::UnknownAttribute)));
    assert_eq!(
        outcome("struct T { a: u8, #[builder(eac = \"x\")] b: Vec<u8> }"),
        Some(Err(EachError::ExpectedEach { field: 1, attr: 0 }))
    );
    assert_eq!(
        outcome("struct T { a: u8, #[builder(each = )] b: Vec<u8> }"),
        Some(Err(EachError::MetaParse { field: 1, attr: 0 }))
    );
}

#[test]
fn meta_error_is_the_reading_error() {
    let (p, _) = parsed("struct T { #[builder(each = )] b: Vec<u8>, #[builder(each = \"x\")] c: Vec<u8> }");
    let fields = named_fields(&p.input);
    assert!(fields[0].attrs[0].meta_error().is_some());
    assert!(fields[1].attrs[0].meta_error().is_none());
    assert!(!fields[1].attrs[0].tokens().is_empty());
}

#[test]
fn first_refusal_wins_over_later_unhandled_attribute() {
    assert_eq!(
        outcome("struct T { #[doc = \"x\"] a: u8, #[builder] b: u8 }"),
        Some(Err(EachError::UnknownAttribute))
    );
}

#[test]
fn non_string_each_values_and_other_items_are_skipped() {
    let (p, out) = parsed("struct T { #[builder(each = 5, \"ignored\", whatever)] v: Vec<u8> }");
    assert_eq!(get_each(&p.input), Ok(vec![]));
    let x = out.unwrap().unwrap();
    assert_eq!(x.builder_impl.setters.len(), 1);
    assert_eq!(x.builder_impl.each_methods.len(), 0);
}

#[test]
fn each_name_other_than_the_field_keeps_the_setter() {
    let x = outcome("struct T { #[builder(each = \"item\")] items: Vec<u8> }").unwrap().unwrap();
    assert_eq!(x.builder_impl.setters, vec![Setter { field: 0, param: SetterParam::FieldType, wrap_in_some: false }]);
    assert_eq!(x.builder_impl.each_methods[0].name, "item");
}

#[test]
fn struct_ctor_and_build_agree_field_by_field() {
    let x = outcome(
        "struct Mixed { a: u8, b: Option<u8>, c: Vec<u8>, d: std::option::Option<u8>, e: &'static str }",
    )
    .unwrap()
    .unwrap();
    let wrapped: Vec<bool> = x.builder_struct.fields.iter().map(|f| f.wrap_in_option).collect();
    assert_eq!(wrapped, vec![true, false, false, true, true]);
    let unwrapped: Vec<bool> = x.builder_impl.build.fields.iter().map(|f| f.unwrap).collect();
    assert_eq!(unwrapped, wrapped);
    assert_eq!(x.builder_impl.build.required, vec![0, 3, 4]);
    let empty_vec: Vec<bool> = x.t_impl.builder.inits.iter().map(|i| i.empty_vec).collect();
    assert_eq!(empty_vec, vec![false, false, true, false, false]);
}

fn path(words: &[&str]) -> PathDef {
    PathDef {
        segments: words
            .iter()
            .map(|w| SegmentDef { ident: w.to_string(), arguments: PathArguments::NoArguments })
            .collect(),
    }
}

fn plain(word: &str) -> TypeDef {
    TypeDef::Path { path: path(&[word]), tokens: vec![] }
}

fn generic(word: &str, inner: TypeDef) -> TypeDef {
    TypeDef::Path {
        path: PathDef {
            segments: vec![SegmentDef {
                ident: word.to_string(),
                arguments: PathArguments::AngleBracketed(vec![GenericArgument::Type(inner)]),
            }],
        },
        tokens: vec![],
    }
}

#[test]
fn type_tests() {
    let opt = generic("Option", plain("String"));
    let v = generic("Vec", plain("u8"));
    let qualified = TypeDef::Path { path: path(&["std", "option", "Option"]), tokens: vec![] };
    assert!(is_option(&opt));
    assert!(!is_vec(&opt));
    assert!(is_vec(&v));
    assert!(!is_option(&qualified));
    assert!(!is_option(&TypeDef::Other { tokens: vec![] }));
    assert_eq!(get_inside(&opt), Some(&plain("String")));
    assert_eq!(get_inside(&plain("u8")), None);
    assert_eq!(get_inside(&qualified), None);
    assert_eq!(get_first_ident(&path(&["std", "vec"])), Some("std".to_string()));
    assert_eq!(get_first_ident(&PathDef { segments: vec![] }), None);
}

#[test]
fn unknown_literals_are_not_handed_to_syn() {
    let c_string = read("struct T { #[builder(each = c\"x\")] v: Vec<u8> }");
    assert!(!c_string.has_known_literals());
    assert!(try_derive_tokens(&c_string).is_none());
    let fine = read(COMMAND);
    assert!(fine.has_known_literals());
    let (p, out) = try_derive_tokens(&fine).unwrap().unwrap();
    assert_eq!(p.input.ident, "Command");
    assert!(matches!(out, Some(Ok(_))));
    assert!(try_derive_tokens(&read("fn f() {}")).unwrap().is_err());
}

#[test]
fn error_messages() {
    assert_eq!(EachError::UnnamedField.message(), Some("Unnamed Field".to_string()));
    assert_eq!(EachError::UnknownAttribute.message(), Some("Unknown attribute".to_string()));
    assert_eq!(
        EachError::ExpectedEach { field: 0, attr: 0 }.message(),
        Some("expected `builder(each = \"...\")`".to_string())
    );
    assert_eq!(EachError::MetaParse { field: 0, attr: 0 }.message(), None);
}
