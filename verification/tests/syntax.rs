use libc_enum::decl::{EnumDecl, Variant};
use libc_enum::syntax::{parse_enum, parse_repr_type, ExpandError};
use libc_enum::{expand, libc_enum};

#[test]
fn argument_is_one_type_path() {
    assert_eq!(parse_repr_type("libc::c_int").unwrap(), "libc :: c_int");
    assert_eq!(parse_repr_type("i32").unwrap(), "i32");
    assert_eq!(
        parse_repr_type("::std::os::raw::c_ulong").unwrap(),
        ":: std :: os :: raw :: c_ulong"
    );
}

#[test]
fn empty_argument_is_malformed() {
    assert!(matches!(parse_repr_type(""), Err(ExpandError::MalformedArgument(_))));
    assert!(matches!(
        libc_enum("", "enum E { A }"),
        Err(ExpandError::MalformedArgument(_))
    ));
}

#[test]
fn several_types_are_malformed() {
    assert!(matches!(parse_repr_type("i32, u8"), Err(ExpandError::MalformedArgument(_))));
    assert!(matches!(parse_repr_type("i32 u8"), Err(ExpandError::MalformedArgument(_))));
}

#[test]
fn other_syntax_is_malformed() {
    assert!(matches!(parse_repr_type("[u8; 4]"), Err(ExpandError::MalformedArgument(_))));
    assert!(matches!(parse_repr_type("repr = i32"), Err(ExpandError::MalformedArgument(_))));
    assert!(matches!(parse_repr_type("\"i32"), Err(ExpandError::MalformedArgument(_))));
}

#[test]
fn item_that_is_no_enum_is_malformed() {
    assert!(matches!(parse_enum("struct S;"), Err(ExpandError::MalformedEnum(_))));
    assert!(matches!(parse_enum("fn f() {}"), Err(ExpandError::MalformedEnum(_))));
    assert!(matches!(parse_enum(""), Err(ExpandError::MalformedEnum(_))));
    assert!(matches!(parse_enum("enum E { A } enum F { B }"), Err(ExpandError::MalformedEnum(_))));
    assert!(matches!(
        libc_enum("libc::c_int", "struct S;"),
        Err(ExpandError::MalformedEnum(_))
    ));
}

#[test]
fn argument_is_read_before_the_item() {
    assert!(matches!(libc_enum("i32, u8", "struct S;"), Err(ExpandError::MalformedArgument(_))));
}

#[test]
fn enum_structure_is_extracted() {
    let decl = parse_enum(
        "/// Signals.
        #[derive(Debug)]
        pub enum Signal {
            SIGINT,
            /// Polite.
            #[cfg(unix)]
            SIGTERM,
        }",
    )
    .unwrap();
    assert_eq!(
        decl,
        EnumDecl {
            name: "Signal".to_string(),
            variants: vec![
                Variant { name: "SIGINT".to_string(), markers: vec![] },
                Variant {
                    name: "SIGTERM".to_string(),
                    markers: vec![
                        "# [doc = \" Polite.\"]".to_string(),
                        "# [cfg (unix)]".to_string()
                    ],
                },
            ],
            source: "# [doc = \" Signals.\"] # [derive (Debug)] pub enum Signal \
                     { SIGINT , # [doc = \" Polite.\"] # [cfg (unix)] SIGTERM , }"
                .to_string(),
        }
    );
}

#[test]
fn raw_identifiers_keep_their_prefix() {
    let decl = parse_enum("enum r#type { r#match }").unwrap();
    assert_eq!(decl.name, "r#type");
    assert_eq!(decl.variants[0].name, "r#match");
}

#[test]
fn variants_with_fields_are_not_rejected() {
    let decl = parse_enum("enum E { A(u8), B { x: u8 }, C = 3 }").unwrap();
    let names: Vec<&str> = decl.variants.iter().map(|v| v.name.as_str()).collect();
    assert_eq!(names, vec!["A", "B", "C"]);
}

#[test]
fn expansion_of_parsed_input_is_expansion_of_its_parts() {
    let args = "libc::c_int";
    let input = "enum Signal { SIGINT, #[cfg(unix)] SIGTERM }";
    let repr = parse_repr_type(args).unwrap();
    let decl = parse_enum(input).unwrap();
    assert_eq!(libc_enum(args, input).unwrap(), expand(&repr, &decl));
}
