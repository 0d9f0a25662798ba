//! The source text of the generated conversions and of the whole output.

use vstd::prelude::*;
use vstd::string::*;
use crate::decl::texts;
use crate::emit::{ConversionView, ForwardConversion, MatchArm, MatchArmView, ReverseConversion};

verus! {

/// The text of a list of markers: each marker, followed by one space.
pub open spec fn markers_text(markers: Seq<Seq<char>>) -> Seq<char>
    decreases markers.len(),
{
    if markers.len() == 0 {
        Seq::empty()
    } else {
        markers_text(markers.drop_last()) + markers.last() + " "@
    }
}

/// The text of a forward arm: under its markers, the variant as the pattern
/// and the namespace constant as the value.
pub open spec fn forward_arm_text(enum_name: Seq<char>, arm: MatchArmView) -> Seq<char> {
    markers_text(arm.markers) + enum_name + "::"@ + arm.variant + " => ::libc::"@ + arm.constant
}

/// The text of a reverse arm: under its markers, the namespace constant as
/// the pattern and success with the variant as the value.
pub open spec fn reverse_arm_text(enum_name: Seq<char>, arm: MatchArmView) -> Seq<char> {
    markers_text(arm.markers) + "::libc::"@ + arm.constant + " => Ok("@ + enum_name + "::"@
        + arm.variant + ")"@
}

/// The text of the forward arms: one line each, in order, with a comma between
/// two arms and none after the last.
pub open spec fn forward_arms_text(enum_name: Seq<char>, arms: Seq<MatchArmView>) -> Seq<char>
    decreases arms.len(),
{
    if arms.len() == 0 {
        Seq::empty()
    } else {
        forward_arms_text(enum_name, arms.drop_last()) + (if arms.len() == 1 {
            "\n            "@
        } else {
            ",\n            "@
        }) + forward_arm_text(enum_name, arms.last())
    }
}

/// The text of the reverse arms: one line each, in order, with a comma after
/// every arm.
pub open spec fn reverse_arms_text(enum_name: Seq<char>, arms: Seq<MatchArmView>) -> Seq<char>
    decreases arms.len(),
{
    if arms.len() == 0 {
        Seq::empty()
    } else {
        reverse_arms_text(enum_name, arms.drop_last()) + "            "@ + reverse_arm_text(
            enum_name,
            arms.last(),
        ) + ",\n"@
    }
}

/// The text of the forward conversion: an `Into` impl whose `match` holds the
/// forward arms and no fallback.
pub open spec fn forward_text(c: ConversionView) -> Seq<char> {
    "impl std::convert::Into<"@ + c.repr + "> for "@ + c.enum_name + " {\n    fn into(self) -> "@
        + c.repr + " {\n        match self {"@ + forward_arms_text(c.enum_name, c.arms)
        + "\n        }\n    }\n}\n"@
}

/// The text of the reverse conversion: a `TryFrom` impl with the unit type as
/// its error, whose `match` holds the reverse arms and then the catch-all arm
/// that reports failure.
pub open spec fn reverse_text(c: ConversionView) -> Seq<char> {
    "impl std::convert::TryFrom<"@ + c.repr + "> for "@ + c.enum_name
        + " {\n    type Error = ();\n\n    fn try_from(value: "@ + c.repr + ") -> Result<"@
        + c.enum_name + ", Self::Error> {\n        match value {\n"@ + reverse_arms_text(
        c.enum_name,
        c.arms,
    ) + "            _ => Err(())\n        }\n    }\n}\n"@
}

/// Writes a list of markers: each marker, followed by one space.
pub fn render_markers(markers: &Vec<String>) -> (text: String)
    ensures
        text@ == markers_text(texts(markers@)),
{
    let mut text = String::new();
    let mut i: usize = 0;
    while i < markers.len()
        invariant
            i <= markers.len(),
            text@ == markers_text(texts(markers@).take(i as int)),
        decreases markers.len() - i,
    {
        assert(texts(markers@).take(i + 1).drop_last() =~= texts(markers@).take(i as int));
        text.append(markers[i].as_str());
        text.append(" ");
        i += 1;
    }
    assert(texts(markers@).take(i as int) =~= texts(markers@));
    text
}

impl MatchArm {
    /// Writes the arm as an arm of the forward conversion of `enum_name`.
    pub fn render_forward(&self, enum_name: &str) -> (text: String)
        ensures
            text@ == forward_arm_text(enum_name@, self@),
    {
        let mut text = render_markers(&self.markers);
        text.append(enum_name);
        text.append("::");
        text.append(self.variant.as_str());
        text.append(" => ::libc::");
        text.append(self.constant.as_str());
        text
    }

    /// Writes the arm as an arm of the reverse conversion of `enum_name`.
    pub fn render_reverse(&self, enum_name: &str) -> (text: String)
        ensures
            text@ == reverse_arm_text(enum_name@, self@),
    {
        let mut text = render_markers(&self.markers);
        text.append("::libc::");
        text.append(self.constant.as_str());
        text.append(" => Ok(");
        text.append(enum_name);
        text.append("::");
        text.append(self.variant.as_str());
        text.append(")");
        text
    }
}

impl ForwardConversion {
    /// Writes the arms of the `match`, in order.
    pub fn render_arms(&self) -> (text: String)
        ensures
            text@ == forward_arms_text(self@.enum_name, self@.arms),
    {
        let mut text = String::new();
        let mut i: usize = 0;
        while i < self.arms.len()
            invariant
                i <= self.arms.len(),
                text@ == forward_arms_text(self@.enum_name, self@.arms.take(i as int)),
            decreases self.arms.len() - i,
        {
            assert(self@.arms.take(i + 1).drop_last() =~= self@.arms.take(i as int));
            if i == 0 {
                text.append("\n            ");
            } else {
                text.append(",\n            ");
            }
            let arm = self.arms[i].render_forward(self.enum_name.as_str());
            text.append(arm.as_str());
            i += 1;
        }
        assert(self@.arms.take(i as int) =~= self@.arms);
        text
    }

    /// Writes the conversion as source text.
    pub fn render(&self) -> (text: String)
        ensures
            text@ == forward_text(self@),
    {
        let arms = self.render_arms();
        let mut text = String::new();
        text.append("impl std::convert::Into<");
        text.append(self.repr.as_str());
        text.append("> for ");
        text.append(self.enum_name.as_str());
        text.append(" {\n    fn into(self) -> ");
        text.append(self.repr.as_str());
        text.append(" {\n        match self {");
        text.append(arms.as_str());
        text.append("\n        }\n    }\n}\n");
        assert(text@ =~= forward_text(self@));
        text
    }
}

impl ReverseConversion {
    /// Writes the arms of the `match` that come before the catch-all, in order.
    pub fn render_arms(&self) -> (text: String)
        ensures
            text@ == reverse_arms_text(self@.enum_name, self@.arms),
    {
        let mut text = String::new();
        let mut i: usize = 0;
        while i < self.arms.len()
            invariant
                i <= self.arms.len(),
                text@ == reverse_arms_text(self@.enum_name, self@.arms.take(i as int)),
            decreases self.arms.len() - i,
        {
            assert(self@.arms.take(i + 1).drop_last() =~= self@.arms.take(i as int));
            let arm = self.arms[i].render_reverse(self.enum_name.as_str());
            text.append("            ");
            text.append(arm.as_str());
            text.append(",\n");
            i += 1;
        }
        assert(self@.arms.take(i as int) =~= self@.arms);
        text
    }

    /// Writes the conversion as source text.
    pub fn render(&self) -> (text: String)
        ensures
            text@ == reverse_text(self@),
    {
        let arms = self.render_arms();
        let mut text = String::new();
        text.append("impl std::convert::TryFrom<");
        text.append(self.repr.as_str());
        text.append("> for ");
        text.append(self.enum_name.as_str());
        text.append(" {\n    type Error = ();\n\n    fn try_from(value: ");
        text.append(self.repr.as_str());
        text.append(") -> Result<");
        text.append(self.enum_name.as_str());
        text.append(", Self::Error> {\n        match value {\n");
        text.append(arms.as_str());
        text.append("            _ => Err(())\n        }\n    }\n}\n");
        assert(text@ =~= reverse_text(self@));
        text
    }
}

} // verus!
