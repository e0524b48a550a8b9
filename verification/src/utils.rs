//! Output shaping helpers. The terminal width itself is queried by the
//! surrounding program and handed in as a plain number.

use vstd::prelude::*;
use crate::text::{clipped_line, joined, split_by};

verus! {

/// Every line of `text` clipped to `width` characters.
pub open spec fn clipped_text(text: Seq<char>, width: nat) -> Seq<char> {
    joined(split_by(text, '\n').map_values(|l: Seq<char>| clipped_line(l, width)), "\n"@)
}

/// Clips every line of `text` to `width` characters, marking elided text
/// with an ellipsis.
pub fn truncate_to_terminal(text: &str, width: usize) -> (r: String)
    requires
        width >= 3,
    ensures
        r@ == clipped_text(text@, width as nat),
{
    let lines = crate::text::split_char(text, '\n');
    let ghost line_views = lines@.map_values(|p: String| p@);
    let mut clipped: Vec<String> = Vec::new();
    let mut i: usize = 0;
    proof {
        assert(line_views.take(0) =~= Seq::<Seq<char>>::empty());
        assert(clipped@.map_values(|p: String| p@) =~= line_views.take(0).map_values(
            |l: Seq<char>| clipped_line(l, width as nat),
        ));
    }
    while i < lines.len()
        invariant
            i <= lines@.len(),
            width >= 3,
            line_views == lines@.map_values(|p: String| p@),
            clipped@.map_values(|p: String| p@) =~= line_views.take(i as int).map_values(
                |l: Seq<char>| clipped_line(l, width as nat),
            ),
        decreases lines@.len() - i,
    {
        let ghost before = clipped@.map_values(|p: String| p@);
        clipped.push(crate::text::clip_line(lines[i].as_str(), width));
        proof {
            assert(clipped@.map_values(|p: String| p@) =~= before + seq![
                clipped_line(line_views[i as int], width as nat),
            ]);
            assert(line_views.take(i as int + 1).drop_last() =~= line_views.take(i as int));
            assert(line_views.take(i as int + 1).last() == line_views[i as int]);
            assert(clipped@.map_values(|p: String| p@) =~= line_views.take(i as int + 1).map_values(
                |l: Seq<char>| clipped_line(l, width as nat),
            ));
        }
        i = i + 1;
    }
    proof {
        assert(line_views.take(line_views.len() as int) =~= line_views);
    }
    crate::text::join_with(&clipped, "\n")
}

} // verus!
