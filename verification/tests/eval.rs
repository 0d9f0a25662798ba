use libc_enum::emit::{ForwardConversion, MatchArm, ReverseConversion};
use libc_enum::eval::{Configuration, Constant, EvalError, Namespace};

fn strings(items: &[&str]) -> Vec<String> {
    items.iter().map(|s| s.to_string()).collect()
}

fn arm(markers: &[&str], variant: &str, constant: &str) -> MatchArm {
    MatchArm {
        markers: strings(markers),
        variant: variant.to_string(),
        constant: constant.to_string(),
    }
}

fn conversions(arms: Vec<MatchArm>) -> (ForwardConversion, ReverseConversion) {
    let repr = "i32".to_string();
    let enum_name = "E".to_string();
    (
        ForwardConversion { repr: repr.clone(), enum_name: enum_name.clone(), arms: arms.clone() },
        ReverseConversion { repr, enum_name, arms },
    )
}

fn namespace(constants: &[(&str, i64)]) -> Namespace {
    Namespace {
        constants: constants
            .iter()
            .map(|(name, value)| Constant { name: name.to_string(), value: *value })
            .collect(),
    }
}

#[test]
fn configuration_excludes_what_it_lists() {
    let cfg = Configuration { excluded: strings(&["#[cfg(a)]", "#[cfg(b)]"]) };
    assert!(cfg.excludes("#[cfg(a)]"));
    assert!(cfg.excludes("#[cfg(b)]"));
    assert!(!cfg.excludes("#[cfg(c)]"));
    assert!(!cfg.excludes(""));
    assert!(!Configuration { excluded: vec![] }.excludes("#[cfg(a)]"));
}

#[test]
fn one_excluding_marker_is_enough() {
    let cfg = Configuration { excluded: strings(&["#[cfg(b)]"]) };
    assert!(cfg.admits(&strings(&[])));
    assert!(cfg.admits(&strings(&["#[cfg(a)]", "#[doc = \"x\"]"])));
    assert!(!cfg.admits(&strings(&["#[cfg(a)]", "#[cfg(b)]"])));
    assert!(!cfg.admits(&strings(&["#[cfg(b)]", "#[cfg(a)]"])));
}

#[test]
fn namespace_gives_the_first_entry_of_a_name() {
    let ns = namespace(&[("A", 1), ("B", 2), ("A", 3)]);
    assert_eq!(ns.get("A"), Some(1));
    assert_eq!(ns.get("B"), Some(2));
    assert_eq!(ns.get("C"), None);
    assert_eq!(namespace(&[]).get("A"), None);
}

#[test]
fn first_fitting_arm_decides() {
    let cfg = Configuration { excluded: strings(&["#[cfg(off)]"]) };
    let ns = namespace(&[("X", 1), ("Y", 2), ("Z", 2)]);
    let arms = vec![
        arm(&["#[cfg(off)]"], "A", "X"),
        arm(&[], "A", "Y"),
        arm(&[], "B", "Z"),
        arm(&[], "A", "Z"),
    ];
    let (forward, reverse) = conversions(arms);
    assert_eq!(forward.eval(&cfg, &ns, "A"), Ok(2));
    assert_eq!(forward.eval(&cfg, &ns, "B"), Ok(2));
    assert_eq!(forward.eval(&cfg, &ns, "C"), Err(EvalError::UnknownVariant));
    assert_eq!(reverse.eval(&cfg, &ns, 2), Ok(Ok("A".to_string())));
    assert_eq!(reverse.eval(&cfg, &ns, 1), Ok(Err(())));
}

#[test]
fn excluded_arm_needs_no_constant() {
    let cfg = Configuration { excluded: strings(&["#[cfg(off)]"]) };
    let ns = namespace(&[("Y", 2)]);
    let arms = vec![arm(&["#[cfg(off)]"], "A", "X"), arm(&[], "B", "Y")];
    let (forward, reverse) = conversions(arms);
    assert_eq!(forward.eval(&cfg, &ns, "B"), Ok(2));
    assert_eq!(forward.eval(&cfg, &ns, "A"), Err(EvalError::UnknownVariant));
    assert_eq!(reverse.eval(&cfg, &ns, 2), Ok(Ok("B".to_string())));
    let all = Configuration { excluded: vec![] };
    assert_eq!(forward.eval(&all, &ns, "B"), Err(EvalError::UnresolvedConstant));
    assert_eq!(reverse.eval(&all, &ns, 2), Err(EvalError::UnresolvedConstant));
}
