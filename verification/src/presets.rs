use vstd::prelude::*;

use vstd::string::StrSliceExecFns;

verus! {

/// The named looks that can be applied in one call.
#[derive(Clone, Copy, Debug, PartialEq, Eq)]
pub enum InstagramPreset {
    /// High contrast with lifted shadows.
    Clarendon,
    /// A soft, dreamy look.
    Gingham,
    /// Desaturated and cool.
    Moon,
    /// Bright and vibrant.
    Lark,
    /// A vintage film look.
    Reyes,
}

/// The look called `name`, if there is one; names are matched exactly, in
/// lower case.
pub open spec fn preset_named(name: Seq<char>) -> Option<InstagramPreset> {
    if name == "clarendon"@ {
        Some(InstagramPreset::Clarendon)
    } else if name == "gingham"@ {
        Some(InstagramPreset::Gingham)
    } else if name == "moon"@ {
        Some(InstagramPreset::Moon)
    } else if name == "lark"@ {
        Some(InstagramPreset::Lark)
    } else if name == "reyes"@ {
        Some(InstagramPreset::Reyes)
    } else {
        None
    }
}

/// Whether two strings hold the same characters.
fn same_text(a: &str, b: &str) -> (r: bool)
    ensures
        r == (a@ == b@),
{
    let n = a.unicode_len();
    if n != b.unicode_len() {
        return false;
    }
    let mut i: usize = 0;
    while i < n
        invariant
            i <= n,
            n == a@.len(),
            n == b@.len(),
            forall|k: int| 0 <= k < i ==> a@[k] == b@[k],
        decreases n - i,
    {
        if a.get_char(i) != b.get_char(i) {
            return false;
        }
        i = i + 1;
    }
    assert(a@ =~= b@);
    true
}

impl InstagramPreset {
    /// The look called `name`; `None` for a name that no look has.
    pub fn from_name(name: &str) -> (r: Option<InstagramPreset>)
        ensures
            r == preset_named(name@),
    {
        if same_text(name, "clarendon") {
            Some(InstagramPreset::Clarendon)
        } else if same_text(name, "gingham") {
            Some(InstagramPreset::Gingham)
        } else if same_text(name, "moon") {
            Some(InstagramPreset::Moon)
        } else if same_text(name, "lark") {
            Some(InstagramPreset::Lark)
        } else if same_text(name, "reyes") {
            Some(InstagramPreset::Reyes)
        } else {
            None
        }
    }
}

} // verus!
