//! What holds of every expansion, whatever the declaration, the configuration
//! and the namespace.

use vstd::prelude::*;
use crate::decl::EnumDeclView;
use crate::emit::{arm_of, conversion_of, MatchArmView};
use crate::eval::{
    forward_outcome, forward_value, present, recognizes, resolves, reverse_variant, selects,
    EvalError,
};
use crate::output::{expansion, output_text};
use crate::render::{forward_arms_text, reverse_arms_text};

verus! {

/// Whether arm `j` is the first forward arm that fits `variant`.
pub open spec fn first_selecting(
    arms: Seq<MatchArmView>,
    excluded: Set<Seq<char>>,
    variant: Seq<char>,
    j: int,
) -> bool {
    &&& 0 <= j < arms.len()
    &&& selects(arms[j], excluded, variant)
    &&& forall|k: int| 0 <= k < j ==> !selects(#[trigger] arms[k], excluded, variant)
}

/// Whether arm `j` is the first reverse arm that fits `value`.
pub open spec fn first_recognizing(
    arms: Seq<MatchArmView>,
    excluded: Set<Seq<char>>,
    ns: Map<Seq<char>, i64>,
    value: i64,
    j: int,
) -> bool {
    &&& 0 <= j < arms.len()
    &&& recognizes(arms[j], excluded, ns, value)
    &&& forall|k: int| 0 <= k < j ==> !recognizes(#[trigger] arms[k], excluded, ns, value)
}

/// The forward `match` is decided by the first arm that fits, and gives
/// nothing exactly where no arm fits.
pub proof fn lemma_forward_first_fit(
    arms: Seq<MatchArmView>,
    excluded: Set<Seq<char>>,
    ns: Map<Seq<char>, i64>,
    variant: Seq<char>,
)
    ensures
        match forward_value(arms, excluded, ns, variant) {
            Some(value) => exists|j: int| #[trigger]
                first_selecting(arms, excluded, variant, j) && value == ns[arms[j].constant],
            None => forall|j: int|
                0 <= j < arms.len() ==> !selects(#[trigger] arms[j], excluded, variant),
        },
    decreases arms.len(),
{
    if arms.len() > 0 {
        let front = arms.drop_last();
        lemma_forward_first_fit(front, excluded, ns, variant);
        match forward_value(front, excluded, ns, variant) {
            Some(value) => {
                let j = choose|j: int| #[trigger]
                    first_selecting(front, excluded, variant, j) && value == ns[front[j].constant];
                assert forall|k: int| 0 <= k < j implies !selects(
                    #[trigger] arms[k],
                    excluded,
                    variant,
                ) by {
                    assert(arms[k] == front[k]);
                }
                assert(first_selecting(arms, excluded, variant, j));
            },
            None => {
                assert forall|k: int| 0 <= k < arms.len() - 1 implies !selects(
                    #[trigger] arms[k],
                    excluded,
                    variant,
                ) by {
                    assert(arms[k] == front[k]);
                }
                if selects(arms.last(), excluded, variant) {
                    assert(first_selecting(arms, excluded, variant, arms.len() - 1));
                }
            },
        }
    }
}

/// The reverse `match` is decided by the first arm that fits, and falls
/// through to the catch-all exactly where no arm fits.
pub proof fn lemma_reverse_first_fit(
    arms: Seq<MatchArmView>,
    excluded: Set<Seq<char>>,
    ns: Map<Seq<char>, i64>,
    value: i64,
)
    ensures
        match reverse_variant(arms, excluded, ns, value) {
            Some(variant) => exists|j: int| #[trigger]
                first_recognizing(arms, excluded, ns, value, j) && variant == arms[j].variant,
            None => forall|j: int|
                0 <= j < arms.len() ==> !recognizes(#[trigger] arms[j], excluded, ns, value),
        },
    decreases arms.len(),
{
    if arms.len() > 0 {
        let front = arms.drop_last();
        lemma_reverse_first_fit(front, excluded, ns, value);
        match reverse_variant(front, excluded, ns, value) {
            Some(variant) => {
                let j = choose|j: int| #[trigger]
                    first_recognizing(front, excluded, ns, value, j) && variant
                        == front[j].variant;
                assert forall|k: int| 0 <= k < j implies !recognizes(
                    #[trigger] arms[k],
                    excluded,
                    ns,
                    value,
                ) by {
                    assert(arms[k] == front[k]);
                }
                assert(first_recognizing(arms, excluded, ns, value, j));
            },
            None => {
                assert forall|k: int| 0 <= k < arms.len() - 1 implies !recognizes(
                    #[trigger] arms[k],
                    excluded,
                    ns,
                    value,
                ) by {
                    assert(arms[k] == front[k]);
                }
                if recognizes(arms.last(), excluded, ns, value) {
                    assert(first_recognizing(arms, excluded, ns, value, arms.len() - 1));
                }
            },
        }
    }
}

/// Forward totality. For every variant that is present under the
/// configuration, the forward conversion is defined and gives exactly the
/// constant that bears the variant's own name; where the generated code
/// compiles, that is its outcome.
pub proof fn lemma_forward_total(
    repr: Seq<char>,
    decl: EnumDeclView,
    excluded: Set<Seq<char>>,
    ns: Map<Seq<char>, i64>,
    i: int,
)
    requires
        0 <= i < decl.variants.len(),
        present(decl.variants[i].markers, excluded),
    ensures
        forward_value(expansion(repr, decl).forward.arms, excluded, ns, decl.variants[i].name)
            == Some(ns[decl.variants[i].name]),
        resolves(expansion(repr, decl).forward.arms, excluded, ns) ==> forward_outcome(
            expansion(repr, decl).forward.arms,
            excluded,
            ns,
            decl.variants[i].name,
        ) == Ok::<i64, EvalError>(ns[decl.variants[i].name]),
{
    let arms = conversion_of(repr, decl).arms;
    let name = decl.variants[i].name;
    lemma_forward_first_fit(arms, excluded, ns, name);
    assert(arms[i] == arm_of(decl.variants[i]));
    assert(selects(arms[i], excluded, name));
    let j = choose|j: int| #[trigger]
        first_selecting(arms, excluded, name, j) && forward_value(arms, excluded, ns, name)
            == Some(ns[arms[j].constant]);
    assert(arms[j] == arm_of(decl.variants[j]));
}

/// Round trip. Take a variant that is present under the configuration and
/// whose name the namespace has, such that no present variant before it has
/// the same value under another name. Then the reverse conversion of its
/// forward value gives the variant back.
///
/// Two present variants that share a value are told apart in one direction
/// only: the reverse conversion gives the first of them.
pub proof fn lemma_round_trip(
    repr: Seq<char>,
    decl: EnumDeclView,
    excluded: Set<Seq<char>>,
    ns: Map<Seq<char>, i64>,
    i: int,
)
    requires
        0 <= i < decl.variants.len(),
        present(decl.variants[i].markers, excluded),
        ns.dom().contains(decl.variants[i].name),
        forall|j: int|
            0 <= j < i && present(#[trigger] decl.variants[j].markers, excluded)
                && ns.dom().contains(decl.variants[j].name) && ns[decl.variants[j].name]
                == ns[decl.variants[i].name] ==> decl.variants[j].name == decl.variants[i].name,
    ensures
        forward_value(expansion(repr, decl).forward.arms, excluded, ns, decl.variants[i].name)
            matches Some(value) && reverse_variant(
            expansion(repr, decl).reverse.arms,
            excluded,
            ns,
            value,
        ) == Some(decl.variants[i].name),
{
    let arms = conversion_of(repr, decl).arms;
    let name = decl.variants[i].name;
    let value = ns[name];
    lemma_forward_total(repr, decl, excluded, ns, i);
    lemma_reverse_first_fit(arms, excluded, ns, value);
    assert(arms[i] == arm_of(decl.variants[i]));
    assert(recognizes(arms[i], excluded, ns, value));
    let j = choose|j: int| #[trigger]
        first_recognizing(arms, excluded, ns, value, j) && reverse_variant(
            arms,
            excluded,
            ns,
            value,
        ) == Some(arms[j].variant);
    assert(arms[j] == arm_of(decl.variants[j]));
    assert(j <= i);
}

/// Reverse partiality. For a value that is not the constant of any variant
/// that is present under the configuration, the reverse conversion gives the
/// failure of the catch-all arm.
pub proof fn lemma_reverse_partial(
    repr: Seq<char>,
    decl: EnumDeclView,
    excluded: Set<Seq<char>>,
    ns: Map<Seq<char>, i64>,
    value: i64,
)
    requires
        forall|j: int|
            0 <= j < decl.variants.len() && present(#[trigger] decl.variants[j].markers, excluded)
                && ns.dom().contains(decl.variants[j].name) ==> ns[decl.variants[j].name] != value,
    ensures
        reverse_variant(expansion(repr, decl).reverse.arms, excluded, ns, value) is None,
{
    let arms = conversion_of(repr, decl).arms;
    lemma_reverse_first_fit(arms, excluded, ns, value);
    if reverse_variant(arms, excluded, ns, value) is Some {
        let j = choose|j: int| #[trigger] first_recognizing(arms, excluded, ns, value, j);
        assert(arms[j] == arm_of(decl.variants[j]));
        assert(present(decl.variants[j].markers, excluded));
    }
}

/// What the reverse conversion recovers is a variant of the declaration that
/// is present under the configuration and whose constant is the value.
pub proof fn lemma_reverse_sound(
    repr: Seq<char>,
    decl: EnumDeclView,
    excluded: Set<Seq<char>>,
    ns: Map<Seq<char>, i64>,
    value: i64,
)
    requires
        reverse_variant(expansion(repr, decl).reverse.arms, excluded, ns, value) is Some,
    ensures
        exists|j: int|
            0 <= j < decl.variants.len() && present(#[trigger] decl.variants[j].markers, excluded)
                && ns.dom().contains(decl.variants[j].name) && ns[decl.variants[j].name] == value
                && reverse_variant(expansion(repr, decl).reverse.arms, excluded, ns, value)
                == Some(decl.variants[j].name),
{
    let arms = conversion_of(repr, decl).arms;
    lemma_reverse_first_fit(arms, excluded, ns, value);
    let j = choose|j: int| #[trigger]
        first_recognizing(arms, excluded, ns, value, j) && reverse_variant(
            arms,
            excluded,
            ns,
            value,
        ) == Some(arms[j].variant);
    assert(arms[j] == arm_of(decl.variants[j]));
    assert(present(decl.variants[j].markers, excluded));
}

/// Name identity. Each conversion has one arm per variant, in declaration
/// order, and each arm pairs its variant with the constant that bears the
/// variant's own name.
pub proof fn lemma_name_identity(repr: Seq<char>, decl: EnumDeclView, i: int)
    requires
        0 <= i < decl.variants.len(),
    ensures
        expansion(repr, decl).forward.arms.len() == decl.variants.len(),
        expansion(repr, decl).reverse.arms.len() == decl.variants.len(),
        expansion(repr, decl).forward.arms[i].variant == decl.variants[i].name,
        expansion(repr, decl).forward.arms[i].constant == decl.variants[i].name,
        expansion(repr, decl).reverse.arms[i].variant == decl.variants[i].name,
        expansion(repr, decl).reverse.arms[i].constant == decl.variants[i].name,
{
}

/// Marker propagation, arm by arm. In both conversions the arm of a variant
/// carries the variant's markers unchanged: under every configuration the arm
/// is present exactly when the variant is, and one marker that excludes is
/// enough to remove it.
pub proof fn lemma_markers_propagate(
    repr: Seq<char>,
    decl: EnumDeclView,
    excluded: Set<Seq<char>>,
    i: int,
)
    requires
        0 <= i < decl.variants.len(),
    ensures
        expansion(repr, decl).forward.arms[i].markers == decl.variants[i].markers,
        expansion(repr, decl).reverse.arms[i].markers == decl.variants[i].markers,
        present(expansion(repr, decl).forward.arms[i].markers, excluded) == present(
            decl.variants[i].markers,
            excluded,
        ),
        present(expansion(repr, decl).reverse.arms[i].markers, excluded) == present(
            decl.variants[i].markers,
            excluded,
        ),
        forall|k: int|
            0 <= k < decl.variants[i].markers.len() && excluded.contains(
                #[trigger] decl.variants[i].markers[k],
            ) ==> !present(expansion(repr, decl).forward.arms[i].markers, excluded) && !present(
                expansion(repr, decl).reverse.arms[i].markers,
                excluded,
            ),
{
}

/// Marker propagation, as seen from outside. Where every variant called
/// `name` is excluded under the configuration, neither conversion knows the
/// name: the forward conversion is not defined on it, and the reverse
/// conversion never recovers it.
pub proof fn lemma_excluded_variant_absent(
    repr: Seq<char>,
    decl: EnumDeclView,
    excluded: Set<Seq<char>>,
    ns: Map<Seq<char>, i64>,
    name: Seq<char>,
    value: i64,
)
    requires
        forall|j: int|
            0 <= j < decl.variants.len() && decl.variants[j].name == name ==> !present(
                #[trigger] decl.variants[j].markers,
                excluded,
            ),
    ensures
        forward_value(expansion(repr, decl).forward.arms, excluded, ns, name) is None,
        reverse_variant(expansion(repr, decl).reverse.arms, excluded, ns, value) != Some(name),
{
    let arms = conversion_of(repr, decl).arms;
    lemma_forward_first_fit(arms, excluded, ns, name);
    if forward_value(arms, excluded, ns, name) is Some {
        let j = choose|j: int| #[trigger] first_selecting(arms, excluded, name, j);
        assert(arms[j] == arm_of(decl.variants[j]));
        assert(!present(decl.variants[j].markers, excluded));
    }
    lemma_reverse_first_fit(arms, excluded, ns, value);
    if reverse_variant(arms, excluded, ns, value) == Some(name) {
        let j = choose|j: int| #[trigger]
            first_recognizing(arms, excluded, ns, value, j) && name == arms[j].variant;
        assert(arms[j] == arm_of(decl.variants[j]));
        assert(!present(decl.variants[j].markers, excluded));
    }
}

/// Declaration fidelity. The output unit holds the declaration's text as it
/// came in, and the output's text begins with it.
pub proof fn lemma_declaration_kept(repr: Seq<char>, decl: EnumDeclView)
    ensures
        expansion(repr, decl).declaration == decl.source,
        output_text(expansion(repr, decl)).len() >= decl.source.len(),
        output_text(expansion(repr, decl)).subrange(0, decl.source.len() as int) == decl.source,
{
}

/// Zero-variant degeneracy. An enum without variants gives a forward `match`
/// without arms and a reverse `match` with the catch-all alone: the forward
/// conversion is defined on nothing, the reverse conversion always fails, and
/// the generated code compiles under every namespace.
pub proof fn lemma_no_variants(
    repr: Seq<char>,
    decl: EnumDeclView,
    excluded: Set<Seq<char>>,
    ns: Map<Seq<char>, i64>,
    variant: Seq<char>,
    value: i64,
)
    requires
        decl.variants.len() == 0,
    ensures
        expansion(repr, decl).forward.arms.len() == 0,
        expansion(repr, decl).reverse.arms.len() == 0,
        forward_arms_text(decl.name, expansion(repr, decl).forward.arms) == Seq::<char>::empty(),
        reverse_arms_text(decl.name, expansion(repr, decl).reverse.arms) == Seq::<char>::empty(),
        resolves(expansion(repr, decl).forward.arms, excluded, ns),
        forward_value(expansion(repr, decl).forward.arms, excluded, ns, variant) is None,
        reverse_variant(expansion(repr, decl).reverse.arms, excluded, ns, value) is None,
{
}

} // verus!
