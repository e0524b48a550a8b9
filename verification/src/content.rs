//! Aligned key/value rendering for status output: fields padded to a
//! common key width, blank lines, and separator rules.

use vstd::prelude::*;
use crate::text::{joined, padded_left, repeated};

verus! {

/// One row of rendered output.
#[derive(Debug)]
pub enum Content {
    /// A key and a value, keys right-aligned over the whole block.
    Field(String, String),
    /// A blank line.
    Space,
    /// A horizontal rule over the block's width.
    Separator,
}

/// The spec-level view of a row.
#[verifier::ext_equal]
pub enum ContentView {
    Field(Seq<char>, Seq<char>),
    Space,
    Separator,
}

impl View for Content {
    type V = ContentView;

    open spec fn view(&self) -> ContentView {
        match self {
            Content::Field(k, v) => ContentView::Field(k@, v@),
            Content::Space => ContentView::Space,
            Content::Separator => ContentView::Separator,
        }
    }
}

impl Clone for Content {
    /// An exact copy of the row.
    fn clone(&self) -> (r: Content)
        ensures
            r@ == self@,
    {
        match self {
            Content::Field(k, v) => Content::Field(k.clone(), v.clone()),
            Content::Space => Content::Space,
            Content::Separator => Content::Separator,
        }
    }
}

impl Content {
    /// A key/value row.
    pub fn field(k: String, v: String) -> (r: Content)
        ensures
            r@ == ContentView::Field(k@, v@),
    {
        Content::Field(k, v)
    }

    /// A blank row.
    pub fn space() -> (r: Content)
        ensures
            r@ == ContentView::Space,
    {
        Content::Space
    }

    /// A separator row.
    pub fn separator() -> (r: Content)
        ensures
            r@ == ContentView::Separator,
    {
        Content::Separator
    }

    /// The key and value lengths of a field row; zero for other rows.
    pub fn length(&self) -> (r: (usize, usize))
        ensures
            r.0 == key_len(self@),
            r.1 == value_len(self@),
    {
        match self {
            Content::Field(k, v) => (k.as_str().unicode_len(), v.as_str().unicode_len()),
            _ => (0, 0),
        }
    }
}

/// The key length of a row.
pub open spec fn key_len(c: ContentView) -> nat {
    match c {
        ContentView::Field(k, _) => k.len(),
        _ => 0,
    }
}

/// The value length of a row.
pub open spec fn value_len(c: ContentView) -> nat {
    match c {
        ContentView::Field(_, v) => v.len(),
        _ => 0,
    }
}

/// The widest key among the rows.
pub open spec fn title_width(rows: Seq<ContentView>) -> nat
    decreases rows.len(),
{
    if rows.len() == 0 {
        0
    } else if key_len(rows.last()) > title_width(rows.drop_last()) {
        key_len(rows.last())
    } else {
        title_width(rows.drop_last())
    }
}

/// The widest value among the rows.
pub open spec fn value_width(rows: Seq<ContentView>) -> nat
    decreases rows.len(),
{
    if rows.len() == 0 {
        0
    } else if value_len(rows.last()) > value_width(rows.drop_last()) {
        value_len(rows.last())
    } else {
        value_width(rows.drop_last())
    }
}

/// One rendered row: the key padded to the common width and the value, a
/// blank line, or a rule spanning both widths.
pub open spec fn row_text(c: ContentView, tw: nat, vw: nat) -> Seq<char> {
    match c {
        ContentView::Field(k, v) => padded_left(k, tw) + " "@ + v,
        ContentView::Space => Seq::empty(),
        ContentView::Separator => repeated(seq!['\u{2500}'], tw + vw + 1),
    }
}

/// The whole block: every row rendered and joined with newlines.
pub open spec fn content_text(rows: Seq<ContentView>) -> Seq<char> {
    joined(
        rows.map_values(|c: ContentView| row_text(c, title_width(rows), value_width(rows))),
        "\n"@,
    )
}

/// Renders the rows as an aligned block.
pub fn content(lines: &Vec<Content>) -> (r: String)
    requires
        title_width(lines@.map_values(|c: Content| c@)) + value_width(
            lines@.map_values(|c: Content| c@),
        ) + 1 <= usize::MAX,
    ensures
        r@ == content_text(lines@.map_values(|c: Content| c@)),
{
    let ghost rows = lines@.map_values(|c: Content| c@);
    let mut tw: usize = 0;
    let mut vw: usize = 0;
    let mut i: usize = 0;
    proof {
        assert(rows.take(0) =~= Seq::<ContentView>::empty());
    }
    while i < lines.len()
        invariant
            i <= lines@.len(),
            rows == lines@.map_values(|c: Content| c@),
            tw == title_width(rows.take(i as int)),
            vw == value_width(rows.take(i as int)),
            title_width(rows) + value_width(rows) + 1 <= usize::MAX,
            tw <= title_width(rows),
            vw <= value_width(rows),
        decreases lines@.len() - i,
    {
        let (k_len, v_len) = lines[i].length();
        proof {
            assert(rows.take(i as int + 1).drop_last() =~= rows.take(i as int));
            assert(rows.take(i as int + 1).last() == rows[i as int]);
            lemma_title_width_monotonic(rows, i as int + 1);
            lemma_value_width_monotonic(rows, i as int + 1);
        }
        if k_len > tw {
            tw = k_len;
        }
        if v_len > vw {
            vw = v_len;
        }
        i = i + 1;
    }
    proof {
        assert(rows.take(rows.len() as int) =~= rows);
    }
    let mut rendered: Vec<String> = Vec::new();
    let mut i: usize = 0;
    proof {
        assert(rendered@.map_values(|s: String| s@) =~= rows.take(0).map_values(
            |c: ContentView| row_text(c, tw as nat, vw as nat),
        ));
    }
    while i < lines.len()
        invariant
            i <= lines@.len(),
            rows == lines@.map_values(|c: Content| c@),
            tw == title_width(rows),
            vw == value_width(rows),
            tw + vw + 1 <= usize::MAX,
            rendered@.map_values(|s: String| s@) =~= rows.take(i as int).map_values(
                |c: ContentView| row_text(c, tw as nat, vw as nat),
            ),
        decreases lines@.len() - i,
    {
        let row = match &lines[i] {
            Content::Field(k, v) => {
                let mut out = crate::text::pad_left(k.as_str(), tw);
                out.append(" ");
                out.append(v.as_str());
                proof {
                    reveal_strlit(" ");
                    assert((" ")@ =~= seq![' ']);
                    assert(out@ =~= row_text(rows[i as int], tw as nat, vw as nat));
                }
                out
            },
            Content::Space => String::new(),
            Content::Separator => {
                let out = crate::text::repeat_str("\u{2500}", tw + vw + 1);
                proof {
                    reveal_strlit("\u{2500}");
                    assert(("\u{2500}")@ =~= seq!['\u{2500}']);
                    lemma_repeated_same(("\u{2500}")@, seq!['\u{2500}'], (tw + vw + 1) as nat);
                    assert(out@ =~= row_text(rows[i as int], tw as nat, vw as nat));
                }
                out
            },
        };
        let ghost before = rendered@.map_values(|s: String| s@);
        rendered.push(row);
        proof {
            assert(rendered@.map_values(|s: String| s@) =~= before + seq![
                row_text(rows[i as int], tw as nat, vw as nat),
            ]);
            assert(rows.take(i as int + 1).drop_last() =~= rows.take(i as int));
            assert(rows.take(i as int + 1).last() == rows[i as int]);
            assert(rendered@.map_values(|s: String| s@) =~= rows.take(i as int + 1).map_values(
                |c: ContentView| row_text(c, tw as nat, vw as nat),
            ));
        }
        i = i + 1;
    }
    proof {
        assert(rows.take(rows.len() as int) =~= rows);
    }
    crate::text::join_with(&rendered, "\n")
}

proof fn lemma_title_width_monotonic(rows: Seq<ContentView>, i: int)
    requires
        0 <= i <= rows.len(),
    ensures
        title_width(rows.take(i)) <= title_width(rows),
    decreases rows.len() - i,
{
    if i < rows.len() {
        lemma_title_width_monotonic(rows, i + 1);
        assert(rows.take(i + 1).drop_last() =~= rows.take(i));
    } else {
        assert(rows.take(i) =~= rows);
    }
}

proof fn lemma_value_width_monotonic(rows: Seq<ContentView>, i: int)
    requires
        0 <= i <= rows.len(),
    ensures
        value_width(rows.take(i)) <= value_width(rows),
    decreases rows.len() - i,
{
    if i < rows.len() {
        lemma_value_width_monotonic(rows, i + 1);
        assert(rows.take(i + 1).drop_last() =~= rows.take(i));
    } else {
        assert(rows.take(i) =~= rows);
    }
}

proof fn lemma_repeated_same(a: Seq<char>, b: Seq<char>, n: nat)
    requires
        a == b,
    ensures
        repeated(a, n) == repeated(b, n),
{
}

} // verus!
