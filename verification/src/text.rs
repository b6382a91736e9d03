use vstd::prelude::*;
use vstd::string::StrSliceExecFns;

verus! {

/// Number of characters a fetched document is cut down to before it is
/// handed to the prompt stage.
pub const DOC_CHAR_BUDGET: usize = 5000;

/// Hard character cut: keeps the first `budget` characters of `text`,
/// or all of `text` when it is shorter. Not content-aware.
pub fn truncate_chars(text: &str, budget: usize) -> (r: String)
    ensures
        budget <= text@.len() ==> r@ == text@.take(budget as int),
        budget > text@.len() ==> r@ == text@,
{
    let n = text.unicode_len();
    let cut = if budget < n {
        budget
    } else {
        n
    };
    let s = text.substring_char(0, cut);
    proof {
        assert(s@ =~= if budget <= text@.len() {
            text@.take(budget as int)
        } else {
            text@
        });
    }
    s.to_owned()
}

} // verus!
