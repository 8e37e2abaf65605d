//! Laying out labelled values: labels filled up to a common width.

use vstd::prelude::*;
use vstd::string::*;
use crate::text::push_repeated;

verus! {

/// The greatest length among the labels of the rows; zero without rows.
pub open spec fn widest(rows: Seq<(Seq<char>, Seq<char>)>) -> nat
    decreases rows.len(),
{
    if rows.len() == 0 {
        0
    } else {
        let rest = widest(rows.drop_last());
        if rows.last().0.len() > rest {
            rows.last().0.len()
        } else {
            rest
        }
    }
}

/// No label is longer than the widest.
pub proof fn lemma_widest_bounds(rows: Seq<(Seq<char>, Seq<char>)>, i: int)
    requires
        0 <= i < rows.len(),
    ensures
        rows[i].0.len() <= widest(rows),
    decreases rows.len(),
{
    if i < rows.len() - 1 {
        lemma_widest_bounds(rows.drop_last(), i);
    }
}

/// A label filled up with spaces on the right to a width, then a colon and a
/// space.
pub open spec fn aligned_label(label: Seq<char>, width: nat) -> Seq<char> {
    label + Seq::new((width - label.len()) as nat, |i: int| ' ') + seq![':', ' ']
}

/// The rows with every label filled up to the width of the widest.
pub open spec fn aligned(rows: Seq<(Seq<char>, Seq<char>)>) -> Seq<(Seq<char>, Seq<char>)> {
    Seq::new(rows.len(), |i: int| (aligned_label(rows[i].0, widest(rows)), rows[i].1))
}

/// The views of the two texts of each pair.
pub open spec fn pairs_of(rows: Seq<(String, String)>) -> Seq<(Seq<char>, Seq<char>)> {
    Seq::new(rows.len(), |i: int| (rows[i].0@, rows[i].1@))
}

/// The greatest length among the labels of the rows.
pub fn widest_label(rows: &Vec<(String, String)>) -> (width: usize)
    ensures
        width == widest(pairs_of(rows@)),
{
    let mut width: usize = 0;
    let mut i: usize = 0;
    let ghost all = pairs_of(rows@);
    assert(all.take(0) =~= Seq::<(Seq<char>, Seq<char>)>::empty());
    while i < rows.len()
        invariant
            i <= rows.len(),
            all == pairs_of(rows@),
            width == widest(all.take(i as int)),
        decreases rows.len() - i,
    {
        assert(all.take(i + 1).drop_last() =~= all.take(i as int));
        assert(all.take(i + 1).last() == all[i as int]);
        let len = rows[i].0.as_str().unicode_len();
        if len > width {
            width = len;
        }
        i = i + 1;
    }
    assert(all.take(i as int) =~= all);
    width
}

/// Fills every label up to the width of the widest and ends it with a colon
/// and a space. The values stay as they are.
pub fn align_labels(rows: Vec<(String, String)>) -> (out: Vec<(String, String)>)
    ensures
        pairs_of(out@) == aligned(pairs_of(rows@)),
{
    let width = widest_label(&rows);
    let ghost all = pairs_of(rows@);
    let ghost given = rows@;
    let mut out: Vec<(String, String)> = Vec::new();
    assert(pairs_of(out@) =~= aligned(all).take(0));
    for row in iter: rows
        invariant
            iter.seq() == given,
            all == pairs_of(given),
            width == widest(all),
            pairs_of(out@) == aligned(all).take(iter.index() as int),
    {
        let ghost at = iter.index() as int;
        let (label, value) = row;
        proof {
            lemma_widest_bounds(all, at);
            assert(all[at] == (label@, value@));
        }
        let ghost before = pairs_of(out@);
        let mut text = label;
        let len = text.as_str().unicode_len();
        push_repeated(&mut text, ' ', width - len);
        text.append(": ");
        proof {
            reveal_strlit(": ");
            assert(": "@ =~= seq![':', ' ']);
            assert(text@ =~= aligned_label(label@, width as nat));
        }
        out.push((text, value));
        proof {
            assert(pairs_of(out@) =~= before.push((text@, value@)));
            assert(pairs_of(out@) =~= aligned(all).take(at + 1));
        }
    }
    assert(aligned(all).take(all.len() as int) =~= aligned(all));
    out
}

} // verus!
