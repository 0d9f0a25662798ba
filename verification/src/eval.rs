//! What the generated conversions compute, once a build configuration has
//! decided which markers exclude and a namespace has given the constants
//! their values.
//!
//! A generated `match` is read as Rust reads it: an arm under an excluding
//! marker is absent, and of the arms that are present the first that fits
//! decides. Code that names a constant the namespace does not have does not
//! compile, whatever value it is asked about.

use vstd::prelude::*;
use crate::decl::texts;
use crate::emit::{ForwardConversion, MatchArmView, ReverseConversion};

verus! {

/// A build configuration: the markers that exclude what they are attached to.
///
/// Every other marker leaves its variant and its arms in place.
#[derive(Debug, Clone, PartialEq, Eq)]
pub struct Configuration {
    pub excluded: Vec<String>,
}

impl View for Configuration {
    type V = Set<Seq<char>>;

    open spec fn view(&self) -> Set<Seq<char>> {
        texts(self.excluded@).to_set()
    }
}

/// A named constant of the namespace.
#[derive(Debug, Clone, PartialEq, Eq)]
pub struct Constant {
    pub name: String,
    pub value: i64,
}

/// The namespace of constants that the generated code refers to.
///
/// Where a name is listed twice, the first entry counts.
#[derive(Debug, Clone, PartialEq, Eq)]
pub struct Namespace {
    pub constants: Vec<Constant>,
}

/// The value of the first constant called `name`, if there is one.
pub open spec fn lookup(constants: Seq<Constant>, name: Seq<char>) -> Option<i64>
    decreases constants.len(),
{
    if constants.len() == 0 {
        None
    } else {
        match lookup(constants.drop_last(), name) {
            Some(value) => Some(value),
            None => if constants.last().name@ == name {
                Some(constants.last().value)
            } else {
                None
            },
        }
    }
}

impl View for Namespace {
    type V = Map<Seq<char>, i64>;

    open spec fn view(&self) -> Map<Seq<char>, i64> {
        Map::new(
            |name: Seq<char>| lookup(self.constants@, name) is Some,
            |name: Seq<char>| lookup(self.constants@, name)->0,
        )
    }
}

/// Why generated code has no value to give.
#[derive(Debug, Clone, Copy, PartialEq, Eq)]
pub enum EvalError {
    /// A present arm names a constant that the namespace does not have: the
    /// generated code does not compile.
    UnresolvedConstant,
    /// The enum has no such variant under the configuration.
    UnknownVariant,
}

/// Whether what stands under `markers` is present: none of them excludes.
pub open spec fn present(markers: Seq<Seq<char>>, excluded: Set<Seq<char>>) -> bool {
    forall|k: int| 0 <= k < markers.len() ==> !excluded.contains(#[trigger] markers[k])
}

/// Whether the generated code compiles: every present arm names a constant
/// of the namespace.
pub open spec fn resolves(
    arms: Seq<MatchArmView>,
    excluded: Set<Seq<char>>,
    ns: Map<Seq<char>, i64>,
) -> bool {
    forall|i: int|
        0 <= i < arms.len() && present(#[trigger] arms[i].markers, excluded) ==> ns.dom().contains(
            arms[i].constant,
        )
}

/// Whether a forward arm fits `variant`: it is present and has `variant` as
/// its pattern.
pub open spec fn selects(arm: MatchArmView, excluded: Set<Seq<char>>, variant: Seq<char>) -> bool {
    present(arm.markers, excluded) && arm.variant == variant
}

/// Whether a reverse arm fits `value`: it is present and its constant, which
/// the namespace has, equals `value`.
pub open spec fn recognizes(
    arm: MatchArmView,
    excluded: Set<Seq<char>>,
    ns: Map<Seq<char>, i64>,
    value: i64,
) -> bool {
    present(arm.markers, excluded) && ns.dom().contains(arm.constant) && ns[arm.constant] == value
}

/// What the forward `match` gives for `variant`: the constant of the first arm
/// that fits; `None` where no arm fits.
pub open spec fn forward_value(
    arms: Seq<MatchArmView>,
    excluded: Set<Seq<char>>,
    ns: Map<Seq<char>, i64>,
    variant: Seq<char>,
) -> Option<i64>
    decreases arms.len(),
{
    if arms.len() == 0 {
        None
    } else {
        match forward_value(arms.drop_last(), excluded, ns, variant) {
            Some(value) => Some(value),
            None => if selects(arms.last(), excluded, variant) {
                Some(ns[arms.last().constant])
            } else {
                None
            },
        }
    }
}

/// What the reverse `match` gives for `value`: the variant of the first arm
/// that fits; `None`, the catch-all's failure, where no arm fits.
pub open spec fn reverse_variant(
    arms: Seq<MatchArmView>,
    excluded: Set<Seq<char>>,
    ns: Map<Seq<char>, i64>,
    value: i64,
) -> Option<Seq<char>>
    decreases arms.len(),
{
    if arms.len() == 0 {
        None
    } else {
        match reverse_variant(arms.drop_last(), excluded, ns, value) {
            Some(variant) => Some(variant),
            None => if recognizes(arms.last(), excluded, ns, value) {
                Some(arms.last().variant)
            } else {
                None
            },
        }
    }
}

/// The outcome of the forward conversion on `variant`.
pub open spec fn forward_outcome(
    arms: Seq<MatchArmView>,
    excluded: Set<Seq<char>>,
    ns: Map<Seq<char>, i64>,
    variant: Seq<char>,
) -> Result<i64, EvalError> {
    if !resolves(arms, excluded, ns) {
        Err(EvalError::UnresolvedConstant)
    } else {
        match forward_value(arms, excluded, ns, variant) {
            Some(value) => Ok(value),
            None => Err(EvalError::UnknownVariant),
        }
    }
}

impl Configuration {
    /// Whether `marker` excludes under this configuration.
    pub fn excludes(&self, marker: &str) -> (r: bool)
        ensures
            r == self@.contains(marker@),
    {
        let wanted = marker.to_owned();
        let mut i: usize = 0;
        while i < self.excluded.len()
            invariant
                i <= self.excluded.len(),
                wanted@ == marker@,
                forall|k: int| 0 <= k < i ==> self.excluded[k]@ != marker@,
            decreases self.excluded.len() - i,
        {
            if self.excluded[i] == wanted {
                assert(texts(self.excluded@)[i as int] == marker@);
                return true;
            }
            i += 1;
        }
        assert(forall|k: int|
            0 <= k < texts(self.excluded@).len() ==> texts(self.excluded@)[k]
                == self.excluded[k]@);
        false
    }

    /// Whether what stands under `markers` is present under this configuration.
    pub fn admits(&self, markers: &Vec<String>) -> (r: bool)
        ensures
            r == present(texts(markers@), self@),
    {
        let mut i: usize = 0;
        while i < markers.len()
            invariant
                i <= markers.len(),
                forall|k: int| 0 <= k < i ==> !self@.contains(#[trigger] texts(markers@)[k]),
            decreases markers.len() - i,
        {
            if self.excludes(markers[i].as_str()) {
                assert(self@.contains(texts(markers@)[i as int]));
                return false;
            }
            i += 1;
        }
        true
    }
}

impl Namespace {
    /// The value of the constant called `name`, if the namespace has one.
    pub fn get(&self, name: &str) -> (r: Option<i64>)
        ensures
            r == (if self@.dom().contains(name@) {
                Some(self@[name@])
            } else {
                None
            }),
    {
        let wanted = name.to_owned();
        let mut i: usize = 0;
        while i < self.constants.len()
            invariant
                i <= self.constants.len(),
                wanted@ == name@,
                lookup(self.constants@.take(i as int), name@) is None,
            decreases self.constants.len() - i,
        {
            assert(self.constants@.take(i + 1).drop_last() =~= self.constants@.take(i as int));
            if self.constants[i].name == wanted {
                proof {
                    lemma_lookup_stays(self.constants@, i + 1, name@);
                }
                return Some(self.constants[i].value);
            }
            i += 1;
        }
        assert(self.constants@.take(i as int) =~= self.constants@);
        None
    }
}

/// Once a prefix of the constants has `name`, the whole list gives the same
/// value for it.
proof fn lemma_lookup_stays(constants: Seq<Constant>, n: int, name: Seq<char>)
    requires
        0 <= n <= constants.len(),
        lookup(constants.take(n), name) is Some,
    ensures
        lookup(constants, name) == lookup(constants.take(n), name),
    decreases constants.len() - n,
{
    if n == constants.len() {
        assert(constants.take(n) =~= constants);
    } else {
        assert(constants.take(n + 1).drop_last() =~= constants.take(n));
        lemma_lookup_stays(constants, n + 1, name);
    }
}

impl ForwardConversion {
    /// Converts `variant` as the generated code would.
    ///
    /// Fails with [`EvalError::UnresolvedConstant`] where the code does not
    /// compile, and with [`EvalError::UnknownVariant`] where it compiles and
    /// no present arm has `variant` as its pattern.
    pub fn eval(
        &self,
        cfg: &Configuration,
        ns: &Namespace,
        variant: &str,
    ) -> (r: Result<i64, EvalError>)
        ensures
            r == forward_outcome(self@.arms, cfg@, ns@, variant@),
    {
        let wanted = variant.to_owned();
        let mut found: Option<i64> = None;
        let mut i: usize = 0;
        while i < self.arms.len()
            invariant
                i <= self.arms.len(),
                wanted@ == variant@,
                resolves(self@.arms.take(i as int), cfg@, ns@),
                found == forward_value(self@.arms.take(i as int), cfg@, ns@, variant@),
            decreases self.arms.len() - i,
        {
            assert(self@.arms.take(i + 1).drop_last() =~= self@.arms.take(i as int));
            assert(self@.arms[i as int] == self.arms[i as int]@);
            if cfg.admits(&self.arms[i].markers) {
                match ns.get(self.arms[i].constant.as_str()) {
                    None => {
                        assert(present(self@.arms[i as int].markers, cfg@));
                        assert(!ns@.dom().contains(self@.arms[i as int].constant));
                        return Err(EvalError::UnresolvedConstant);
                    },
                    Some(value) => {
                        if found.is_none() && self.arms[i].variant == wanted {
                            found = Some(value);
                        }
                    },
                }
            }
            i += 1;
        }
        assert(self@.arms.take(i as int) =~= self@.arms);
        match found {
            Some(value) => Ok(value),
            None => Err(EvalError::UnknownVariant),
        }
    }
}

impl ReverseConversion {
    /// Converts `value` as the generated code would.
    ///
    /// Fails with [`EvalError::UnresolvedConstant`] where the code does not
    /// compile. Where it compiles, the result is the generated function's
    /// own: success with the variant of the first present arm whose constant
    /// equals `value`, or the failure of the catch-all arm.
    pub fn eval(
        &self,
        cfg: &Configuration,
        ns: &Namespace,
        value: i64,
    ) -> (r: Result<Result<String, ()>, EvalError>)
        ensures
            match r {
                Err(e) => e == EvalError::UnresolvedConstant && !resolves(self@.arms, cfg@, ns@),
                Ok(Ok(variant)) => {
                    &&& resolves(self@.arms, cfg@, ns@)
                    &&& reverse_variant(self@.arms, cfg@, ns@, value) == Some(variant@)
                },
                Ok(Err(_)) => {
                    &&& resolves(self@.arms, cfg@, ns@)
                    &&& reverse_variant(self@.arms, cfg@, ns@, value) is None
                },
            },
    {
        let mut found: Option<String> = None;
        let mut i: usize = 0;
        while i < self.arms.len()
            invariant
                i <= self.arms.len(),
                resolves(self@.arms.take(i as int), cfg@, ns@),
                match found {
                    Some(variant) => reverse_variant(self@.arms.take(i as int), cfg@, ns@, value)
                        == Some(variant@),
                    None => reverse_variant(self@.arms.take(i as int), cfg@, ns@, value) is None,
                },
            decreases self.arms.len() - i,
        {
            assert(self@.arms.take(i + 1).drop_last() =~= self@.arms.take(i as int));
            assert(self@.arms[i as int] == self.arms[i as int]@);
            if cfg.admits(&self.arms[i].markers) {
                match ns.get(self.arms[i].constant.as_str()) {
                    None => {
                        assert(present(self@.arms[i as int].markers, cfg@));
                        assert(!ns@.dom().contains(self@.arms[i as int].constant));
                        return Err(EvalError::UnresolvedConstant);
                    },
                    Some(constant) => {
                        if found.is_none() && constant == value {
                            found = Some(self.arms[i].variant.clone());
                        }
                    },
                }
            }
            i += 1;
        }
        assert(self@.arms.take(i as int) =~= self@.arms);
        match found {
            Some(variant) => Ok(Ok(variant)),
            None => Ok(Err(())),
        }
    }
}

} // verus!
