//! Bracketed formatting of the values returned by a read-only view call.

use vstd::prelude::*;
use vstd::string::StringExecFns;

verus! {

/// The comma-and-space joining of a sequence of already-stringified values.
pub open spec fn joined_values(values: Seq<Seq<char>>) -> Seq<char>
    decreases values.len(),
{
    if values.len() == 0 {
        Seq::empty()
    } else if values.len() == 1 {
        values[0]
    } else {
        joined_values(values.drop_last()) + seq![',', ' '] + values.last()
    }
}

/// A sequence of values rendered as a bracketed, comma-separated list:
/// values stringifying to `1`, `2`, `3` give `[1, 2, 3]`.
pub open spec fn view_output_of(values: Seq<Seq<char>>) -> Seq<char> {
    seq!['['] + joined_values(values) + seq![']']
}

/// Renders the values of a view-call result as `[v1, v2, ...]`.
pub fn format_view_output(values: &Vec<String>) -> (r: String)
    ensures
        r@ == view_output_of(values.deep_view()),
{
    let ghost vals = values.deep_view();
    let mut out = String::new();
    out.append("[");
    proof {
        reveal_strlit("[");
        assert(out@ =~= seq!['['] + joined_values(vals.take(0)));
    }
    let mut i: usize = 0;
    while i < values.len()
        invariant
            i <= values.len(),
            vals == values.deep_view(),
            vals.len() == values.len(),
            out@ == seq!['['] + joined_values(vals.take(i as int)),
        decreases values.len() - i,
    {
        if i > 0 {
            out.append(", ");
        }
        out.append(values[i].as_str());
        proof {
            reveal_strlit(", ");
            assert(vals.take(i + 1).drop_last() =~= vals.take(i as int));
            assert(vals.take(i + 1).last() == vals[i as int]);
            if i == 0 {
                assert(joined_values(vals.take(1)) =~= vals[0]);
                assert(out@ =~= seq!['['] + joined_values(vals.take(i + 1)));
            } else {
                assert(out@ =~= seq!['['] + joined_values(vals.take(i + 1)));
            }
        }
        i = i + 1;
    }
    proof {
        assert(vals.take(vals.len() as int) =~= vals);
    }
    out.append("]");
    proof {
        reveal_strlit("]");
        assert(out@ =~= view_output_of(vals));
    }
    out
}

} // verus!
