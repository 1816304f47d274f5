//! The markers shown before list items. They are derived when a list is shown
//! and are not part of the document model.
use vstd::prelude::*;
use crate::numeral::{decimal, push_decimal};

verus! {

/// The glyph shown before every item of an unordered list.
pub open spec fn bullet() -> Seq<char> {
    seq!['\u{2022}']
}

/// The marker of the item at `index` (from 0): `index + 1` and a full stop in
/// an ordered list, the bullet in an unordered one.
pub open spec fn marker(ordered: bool, index: nat) -> Seq<char> {
    if ordered {
        decimal(index + 1).push('.')
    } else {
        bullet()
    }
}

/// The marker shown before the list item at `index` (from 0).
pub fn list_marker(ordered: bool, index: usize) -> (r: String)
    requires
        index < usize::MAX,
    ensures
        r@ == marker(ordered, index as nat),
{
    if ordered {
        let mut out = String::new();
        push_decimal((index as u64) + 1, &mut out);
        proof {
            reveal_strlit(".");
        }
        out.append(".");
        assert(out@ == decimal(index as nat + 1).push('.'));
        out
    } else {
        proof {
            reveal_strlit("\u{2022}");
        }
        String::from_str("\u{2022}")
    }
}

/// The markers of a list of `count` items, in item order: "1." to "N." for an
/// ordered list, the same bullet for every item of an unordered one.
pub fn list_markers(ordered: bool, count: usize) -> (r: Vec<String>)
    requires
        count < usize::MAX,
    ensures
        r@.len() == count,
        forall|i: int| 0 <= i < count ==> #[trigger] r@[i]@ == marker(ordered, i as nat),
{
    let mut out: Vec<String> = Vec::new();
    let mut i: usize = 0;
    while i < count
        invariant
            i <= count < usize::MAX,
            out@.len() == i,
            forall|k: int| 0 <= k < i ==> #[trigger] out@[k]@ == marker(ordered, k as nat),
        decreases count - i,
    {
        out.push(list_marker(ordered, i));
        i = i + 1;
    }
    out
}

} // verus!
