use libc_enum::decl::{clone_texts, EnumDecl, Variant};
use libc_enum::emit::{emit_forward, emit_reverse, variant_arm, variant_arms, MatchArm};
use libc_enum::output::assemble;
use libc_enum::render::render_markers;
use libc_enum::{expand, libc_enum};
use std::str::FromStr;

fn variant(name: &str, markers: &[&str]) -> Variant {
    Variant { name: name.to_string(), markers: markers.iter().map(|m| m.to_string()).collect() }
}

fn signal() -> EnumDecl {
    EnumDecl {
        name: "Signal".to_string(),
        variants: vec![
            variant("SIGINT", &[]),
            variant("SIGTERM", &[]),
            variant("SIGPWR", &["#[cfg(feature = \"sigpwr\")]"]),
        ],
        source: "#[derive(Debug, PartialEq)]\npub enum Signal {\n    SIGINT,\n    SIGTERM,\n    \
                 #[cfg(feature = \"sigpwr\")]\n    SIGPWR,\n}"
            .to_string(),
    }
}

const SIGNAL_FORWARD: &str = "impl std::convert::Into<libc::c_int> for Signal {
    fn into(self) -> libc::c_int {
        match self {
            Signal::SIGINT => ::libc::SIGINT,
            Signal::SIGTERM => ::libc::SIGTERM,
            #[cfg(feature = \"sigpwr\")] Signal::SIGPWR => ::libc::SIGPWR
        }
    }
}
";

const SIGNAL_REVERSE: &str = "impl std::convert::TryFrom<libc::c_int> for Signal {
    type Error = ();

    fn try_from(value: libc::c_int) -> Result<Signal, Self::Error> {
        match value {
            ::libc::SIGINT => Ok(Signal::SIGINT),
            ::libc::SIGTERM => Ok(Signal::SIGTERM),
            #[cfg(feature = \"sigpwr\")] ::libc::SIGPWR => Ok(Signal::SIGPWR),
            _ => Err(())
        }
    }
}
";

#[test]
fn copy_of_a_list_has_the_same_texts() {
    let markers = vec!["#[a]".to_string(), String::new(), "#[b]".to_string()];
    assert_eq!(clone_texts(&markers), markers);
    assert_eq!(clone_texts(&vec![]), Vec::<String>::new());
}

#[test]
fn markers_are_written_in_order() {
    assert_eq!(render_markers(&vec![]), "");
    assert_eq!(render_markers(&vec!["#[a]".to_string()]), "#[a] ");
    assert_eq!(render_markers(&vec!["#[a]".to_string(), "#[b]".to_string()]), "#[a] #[b] ");
}

#[test]
fn arm_is_written_in_both_directions() {
    let arm = MatchArm {
        markers: vec!["#[cfg(unix)]".to_string(), "#[allow(unused)]".to_string()],
        variant: "SIGINT".to_string(),
        constant: "SIGINT".to_string(),
    };
    assert_eq!(
        arm.render_forward("Signal"),
        "#[cfg(unix)] #[allow(unused)] Signal::SIGINT => ::libc::SIGINT"
    );
    assert_eq!(
        arm.render_reverse("Signal"),
        "#[cfg(unix)] #[allow(unused)] ::libc::SIGINT => Ok(Signal::SIGINT)"
    );
}

#[test]
fn arm_of_a_variant_reuses_its_name_and_markers() {
    let arm = variant_arm(&variant("SIGPWR", &["#[cfg(linux)]"]));
    assert_eq!(
        arm,
        MatchArm {
            markers: vec!["#[cfg(linux)]".to_string()],
            variant: "SIGPWR".to_string(),
            constant: "SIGPWR".to_string(),
        }
    );
}

#[test]
fn arms_follow_declaration_order() {
    let arms = variant_arms(&signal().variants);
    let names: Vec<&str> = arms.iter().map(|a| a.variant.as_str()).collect();
    assert_eq!(names, vec!["SIGINT", "SIGTERM", "SIGPWR"]);
}

#[test]
fn forward_conversion_text() {
    let forward = emit_forward("libc::c_int", &signal());
    assert_eq!(forward.render(), SIGNAL_FORWARD);
}

#[test]
fn reverse_conversion_text() {
    let reverse = emit_reverse("libc::c_int", &signal());
    assert_eq!(reverse.render(), SIGNAL_REVERSE);
}

#[test]
fn forward_arms_are_separated_by_commas() {
    let mut decl = signal();
    decl.variants.truncate(1);
    assert_eq!(
        emit_forward("c_int", &decl).render_arms(),
        "\n            Signal::SIGINT => ::libc::SIGINT"
    );
    decl.variants.push(variant("SIGTERM", &[]));
    assert_eq!(
        emit_forward("c_int", &decl).render_arms(),
        "\n            Signal::SIGINT => ::libc::SIGINT,\
         \n            Signal::SIGTERM => ::libc::SIGTERM"
    );
}

#[test]
fn reverse_arms_end_in_commas() {
    let mut decl = signal();
    decl.variants.truncate(2);
    assert_eq!(
        emit_reverse("c_int", &decl).render_arms(),
        "            ::libc::SIGINT => Ok(Signal::SIGINT),\n            \
         ::libc::SIGTERM => Ok(Signal::SIGTERM),\n"
    );
}

#[test]
fn output_is_declaration_then_forward_then_reverse() {
    let decl = signal();
    let text = expand("libc::c_int", &decl).render();
    assert_eq!(text, format!("{}\n{}{}", decl.source, SIGNAL_FORWARD, SIGNAL_REVERSE));
}

#[test]
fn assembler_takes_its_parts_as_they_are() {
    let decl = signal();
    let forward = emit_forward("a", &decl);
    let reverse = emit_reverse("b", &decl);
    let unit = assemble(&decl, forward.clone(), reverse.clone());
    assert_eq!(unit.declaration, decl.source);
    assert_eq!(unit.forward, forward);
    assert_eq!(unit.reverse, reverse);
}

#[test]
fn declaration_is_emitted_unchanged() {
    let input = "#[derive(Debug, PartialEq)] #[repr(u8)] pub(crate) enum Signal { SIGINT }";
    let declaration = "# [derive (Debug , PartialEq)] # [repr (u8)] pub (crate) enum Signal { SIGINT }";
    let unit = libc_enum("libc::c_int", input).unwrap();
    assert_eq!(unit.declaration, declaration);
    assert!(unit.render().starts_with(declaration));
    let tokens = |s: &str| proc_macro2::TokenStream::from_str(s).unwrap().to_string();
    assert_eq!(tokens(&unit.declaration), tokens(input));
}

#[test]
fn enum_without_variants_text() {
    let text = libc_enum("libc::c_int", "enum Never {}").unwrap().render();
    assert_eq!(
        text,
        "enum Never { }
impl std::convert::Into<libc :: c_int> for Never {
    fn into(self) -> libc :: c_int {
        match self {
        }
    }
}
impl std::convert::TryFrom<libc :: c_int> for Never {
    type Error = ();

    fn try_from(value: libc :: c_int) -> Result<Never, Self::Error> {
        match value {
            _ => Err(())
        }
    }
}
"
    );
}

#[test]
fn output_has_the_tokens_of_a_hand_written_expansion() {
    let input = "#[derive(Debug,PartialEq)]
        pub enum Signal {
            SIGINT,
            SIGTERM,

            #[cfg(feature = \"sigpwr\")]
            SIGPWR,
        }";
    let by_hand = "#[derive(Debug,PartialEq)]
        pub enum Signal {
            SIGINT,
            SIGTERM,

            #[cfg(feature = \"sigpwr\")]
            SIGPWR,
        }
        impl std::convert::Into<libc::c_int> for Signal {
            fn into(self) -> libc::c_int {
                match self {
                    Signal::SIGINT => ::libc::SIGINT,
                    Signal::SIGTERM => ::libc::SIGTERM,
                    #[cfg(feature = \"sigpwr\")] Signal::SIGPWR => ::libc::SIGPWR
                }
            }
        }
        impl std::convert::TryFrom<libc::c_int> for Signal {
            type Error = ();

            fn try_from(value: libc::c_int) -> Result<Signal, Self::Error> {
                match value {
                    ::libc::SIGINT => Ok(Signal::SIGINT),
                    ::libc::SIGTERM => Ok(Signal::SIGTERM),
                    #[cfg(feature = \"sigpwr\")] ::libc::SIGPWR => Ok(Signal::SIGPWR),
                    _ => Err(())
                }
            }
        }";
    let text = libc_enum("libc::c_int", input).unwrap().render();
    let tokens = |s: &str| proc_macro2::TokenStream::from_str(s).unwrap().to_string();
    assert_eq!(tokens(&text), tokens(by_hand));
}

#[test]
fn output_is_an_enum_and_two_impls() {
    let text = libc_enum("libc::c_int", "pub enum Signal { SIGINT, #[cfg(unix)] SIGTERM }")
        .unwrap()
        .render();
    let file = syn::parse_str::<syn::File>(&text).unwrap();
    assert_eq!(file.items.len(), 3);
    assert!(matches!(file.items[0], syn::Item::Enum(_)));
    assert!(matches!(file.items[1], syn::Item::Impl(_)));
    assert!(matches!(file.items[2], syn::Item::Impl(_)));
}
