//! The legend of key bindings under the tabs: the bindings of the session
//! and of the active view, in three rows.

use vstd::prelude::*;
use vstd::string::*;
use itertools::Itertools;
use crate::catalog::{
    as_map, ascending, has_name, lemma_map_at, lemma_map_determines_list, lemma_text_less_total,
    position_of, text_less,
};
use crate::text::{push_char, push_repeated, same_text};
use crate::views::layout::{lemma_widest_bounds, pairs_of, widest, widest_label};

verus! {

/// Rows of the legend.
pub const LEGEND_ROWS: usize = 3;

/// Characters that a key and its label take together, the key filled up to
/// the width of the widest key and the label filled up to the rest.
pub const LEGEND_WIDTH: usize = 20;

/// The keys that the session itself reacts to, with what they do.
pub open spec fn default_bindings() -> Seq<(&'static str, &'static str)> {
    seq![("TAB", "Next tab"), ("B/TAB", "Previous tab"), ("q", "Exit")]
}

/// The texts of bindings.
pub open spec fn texts_of(bindings: Seq<(&'static str, &'static str)>) -> Seq<
    (Seq<char>, Seq<char>),
> {
    Seq::new(bindings.len(), |i: int| (bindings[i].0@, bindings[i].1@))
}

/// What each key does, where a later binding of a key replaces an earlier
/// one.
pub open spec fn merged(bindings: Seq<(Seq<char>, Seq<char>)>) -> Map<Seq<char>, Seq<char>>
    decreases bindings.len(),
{
    if bindings.len() == 0 {
        Map::empty()
    } else {
        merged(bindings.drop_last()).insert(bindings.last().0, bindings.last().1)
    }
}

/// The bindings of the session followed by those of a view.
pub open spec fn all_bindings(view: Seq<(&'static str, &'static str)>) -> Seq<
    (Seq<char>, Seq<char>),
> {
    texts_of(default_bindings()) + texts_of(view)
}

/// The bindings of a map in ascending order of their keys.
pub open spec fn listing(m: Map<Seq<char>, Seq<char>>) -> Seq<(Seq<char>, Seq<char>)> {
    choose|l: Seq<(Seq<char>, Seq<char>)>| ascending(l) && as_map(l) == m
}

/// As many spaces as `count`.
pub open spec fn blanks(count: int) -> Seq<char> {
    Seq::new(
        if count > 0 {
            count as nat
        } else {
            0
        },
        |i: int| ' ',
    )
}

/// One binding as the legend shows it: the key, filled up with spaces on the
/// left to `width`, and after a space the label, filled up on the right so
/// that key and label together take `LEGEND_WIDTH` characters, or more where
/// they are longer.
pub open spec fn legend_cell(binding: (Seq<char>, Seq<char>), width: nat) -> (
    Seq<char>,
    Seq<char>,
) {
    (
        blanks(width - binding.0.len()) + binding.0,
        seq![' '] + binding.1 + blanks(LEGEND_WIDTH - width - binding.1.len()),
    )
}

/// Number of bindings that fall into a row of the legend.
pub open spec fn row_len(count: nat, row: int) -> nat {
    ((count + LEGEND_ROWS - 1 - row) / LEGEND_ROWS as int) as nat
}

/// One row of the legend. The bindings are dealt out to the rows in turn,
/// in descending order of their keys.
pub open spec fn legend_row(l: Seq<(Seq<char>, Seq<char>)>, row: int) -> Seq<(Seq<char>, Seq<char>)> {
    Seq::new(
        row_len(l.len(), row),
        |j: int| legend_cell(l[l.len() - 1 - (LEGEND_ROWS * j + row)], widest(l)),
    )
}

/// The legend of a listing of bindings.
pub open spec fn legend_of(l: Seq<(Seq<char>, Seq<char>)>) -> Seq<Seq<(Seq<char>, Seq<char>)>> {
    Seq::new(LEGEND_ROWS as nat, |row: int| legend_row(l, row))
}

/// The texts of the rows of a legend.
pub open spec fn rows_of(rows: Seq<Vec<(String, String)>>) -> Seq<Seq<(Seq<char>, Seq<char>)>> {
    Seq::new(rows.len(), |r: int| pairs_of(rows[r]@))
}

/// No two entries bear the same name.
pub open spec fn distinct_names(s: Seq<(Seq<char>, Seq<char>)>) -> bool {
    forall|i: int, j: int|
        0 <= i < s.len() && 0 <= j < s.len() && #[trigger] s[i].0 == #[trigger] s[j].0 ==> i == j
}

/// Where no two entries bear the same name, the map gives at each entry's
/// name that entry's value.
proof fn lemma_distinct_map_at(s: Seq<(Seq<char>, Seq<char>)>, i: int)
    requires
        distinct_names(s),
        0 <= i < s.len(),
    ensures
        as_map(s).contains_key(s[i].0),
        as_map(s)[s[i].0] == s[i].1,
{
    assert(has_name(s, s[i].0));
    let p = position_of(s, s[i].0);
    assert(s[p].0 == s[i].0);
}

/// Adding a binding of a new key to a list without double keys adds it to
/// the map.
proof fn lemma_distinct_push(s: Seq<(Seq<char>, Seq<char>)>, key: Seq<char>, label: Seq<char>)
    requires
        distinct_names(s),
        !has_name(s, key),
    ensures
        distinct_names(s.push((key, label))),
        as_map(s.push((key, label))) == as_map(s).insert(key, label),
{
    let t = s.push((key, label));
    assert forall|i: int, j: int|
        0 <= i < t.len() && 0 <= j < t.len() && #[trigger] t[i].0 == #[trigger] t[j].0 implies i
        == j by {
        if i < s.len() && j < s.len() {
            assert(s[i].0 == s[j].0);
        } else if i < s.len() {
            assert(s[i].0 == key);
        } else if j < s.len() {
            assert(s[j].0 == key);
        }
    }
    assert forall|name: Seq<char>| as_map(t).contains_key(name) <==> as_map(s).insert(
        key,
        label,
    ).contains_key(name) by {
        if has_name(t, name) {
            let i = position_of(t, name);
            if i < s.len() {
                assert(s[i].0 == name);
            }
        }
        if has_name(s, name) {
            let i = position_of(s, name);
            assert(t[i].0 == name);
        }
        if name == key {
            assert(t[s.len() as int].0 == name);
        }
    }
    assert forall|name: Seq<char>| as_map(t).contains_key(name) implies as_map(t)[name] == as_map(
        s,
    ).insert(key, label)[name] by {
        assert(has_name(t, name));
        let i = position_of(t, name);
        lemma_distinct_map_at(t, i);
        if i < s.len() {
            assert(t[i] == s[i]);
            lemma_distinct_map_at(s, i);
        }
    }
    assert(as_map(t) =~= as_map(s).insert(key, label));
}

/// Giving a key of a list without double keys a new label updates the map.
proof fn lemma_distinct_update(s: Seq<(Seq<char>, Seq<char>)>, at: int, label: Seq<char>)
    requires
        distinct_names(s),
        0 <= at < s.len(),
    ensures
        distinct_names(s.update(at, (s[at].0, label))),
        as_map(s.update(at, (s[at].0, label))) == as_map(s).insert(s[at].0, label),
{
    let key = s[at].0;
    let t = s.update(at, (key, label));
    assert(t.len() == s.len());
    assert forall|i: int, j: int|
        0 <= i < t.len() && 0 <= j < t.len() && #[trigger] t[i].0 == #[trigger] t[j].0 implies i
        == j by {
        assert(t[i].0 == s[i].0 && t[j].0 == s[j].0);
    }
    assert forall|name: Seq<char>| as_map(t).contains_key(name) <==> as_map(s).insert(
        key,
        label,
    ).contains_key(name) by {
        if has_name(t, name) {
            let i = position_of(t, name);
            assert(s[i].0 == name);
        }
        if has_name(s, name) {
            let i = position_of(s, name);
            assert(t[i].0 == name);
        }
        if name == key {
            assert(t[at].0 == name);
        }
    }
    assert forall|name: Seq<char>| as_map(t).contains_key(name) implies as_map(t)[name] == as_map(
        s,
    ).insert(key, label)[name] by {
        assert(has_name(t, name));
        let i = position_of(t, name);
        lemma_distinct_map_at(t, i);
        if i != at {
            assert(t[i] == s[i]);
            lemma_distinct_map_at(s, i);
        }
    }
    assert(as_map(t) =~= as_map(s).insert(key, label));
}

/// The pairs in ascending order of their first texts.
///
/// Trusted: wraps `Itertools::sorted_by_key`, which collects the items,
/// sorts them with `slice::sort_by_key` and hands them out again. The
/// contract says that the result holds the same items as often as the
/// argument, and that no item comes before one with a lesser key; the key
/// is the first text, in the order that the standard library gives strings.
#[verifier::external_body]
fn sorted_by_name(pairs: Vec<(String, String)>) -> (sorted: Vec<(String, String)>)
    ensures
        sorted@.to_multiset() == pairs@.to_multiset(),
        forall|i: int, j: int|
            0 <= i < j < sorted@.len() ==> !text_less(
                (#[trigger] sorted@[j]).0@,
                (#[trigger] sorted@[i]).0@,
            ),
{
    pairs.into_iter().sorted_by_key(|k| k.0.clone()).collect()
}

/// Sorting a list without double keys gives the listing of its map.
proof fn lemma_sorted_is_listing(given: Seq<(String, String)>, sorted: Seq<(String, String)>)
    requires
        distinct_names(pairs_of(given)),
        sorted.to_multiset() == given.to_multiset(),
        forall|i: int, j: int|
            0 <= i < j < sorted.len() ==> !text_less(
                (#[trigger] sorted[j]).0@,
                (#[trigger] sorted[i]).0@,
            ),
    ensures
        ascending(pairs_of(sorted)),
        as_map(pairs_of(sorted)) == as_map(pairs_of(given)),
        pairs_of(sorted) == listing(as_map(pairs_of(given))),
{
    broadcast use vstd::seq_lib::group_to_multiset_ensures;

    let g = pairs_of(given);
    let s = pairs_of(sorted);
    assert(given.no_duplicates()) by {
        assert forall|a: int, b: int|
            0 <= a < given.len() && 0 <= b < given.len() && a != b implies given[a] != given[b] by {
            if given[a] == given[b] {
                assert(g[a].0 == g[b].0);
            }
        }
    }
    given.lemma_multiset_has_no_duplicates();
    sorted.lemma_multiset_has_no_duplicates_conv();
    // Every item of one list is an item of the other.
    assert forall|i: int| 0 <= i < sorted.len() implies given.contains(#[trigger] sorted[i]) by {
        assert(sorted.contains(sorted[i]));
        assert(sorted.to_multiset().count(sorted[i]) > 0);
    }
    assert forall|a: int| 0 <= a < given.len() implies sorted.contains(#[trigger] given[a]) by {
        assert(given.contains(given[a]));
        assert(given.to_multiset().count(given[a]) > 0);
    }
    assert(distinct_names(s)) by {
        assert forall|i: int, j: int|
            0 <= i < s.len() && 0 <= j < s.len() && #[trigger] s[i].0 == #[trigger] s[j].0 implies i
            == j by {
            let a = choose|a: int| 0 <= a < given.len() && given[a] == sorted[i];
            let b = choose|b: int| 0 <= b < given.len() && given[b] == sorted[j];
            assert(g[a].0 == g[b].0);
            assert(sorted[i] == sorted[j]);
        }
    }
    assert(ascending(s)) by {
        assert forall|i: int, j: int| 0 <= i < j < s.len() implies text_less(
            #[trigger] s[i].0,
            #[trigger] s[j].0,
        ) by {
            lemma_text_less_total(s[i].0, s[j].0);
            assert(!text_less(sorted[j].0@, sorted[i].0@));
        }
    }
    assert forall|name: Seq<char>| as_map(s).contains_key(name) <==> as_map(g).contains_key(
        name,
    ) by {
        if has_name(s, name) {
            let i = position_of(s, name);
            let a = choose|a: int| 0 <= a < given.len() && given[a] == sorted[i];
            assert(g[a].0 == name);
        }
        if has_name(g, name) {
            let a = position_of(g, name);
            let i = choose|i: int| 0 <= i < sorted.len() && sorted[i] == given[a];
            assert(s[i].0 == name);
        }
    }
    assert forall|name: Seq<char>| as_map(s).contains_key(name) implies as_map(s)[name] == as_map(
        g,
    )[name] by {
        assert(has_name(s, name));
        let i = position_of(s, name);
        lemma_distinct_map_at(s, i);
        let a = choose|a: int| 0 <= a < given.len() && given[a] == sorted[i];
        assert(g[a] == s[i]);
        lemma_distinct_map_at(g, a);
    }
    assert(as_map(s) =~= as_map(g));
    let l = listing(as_map(g));
    assert(ascending(l) && as_map(l) == as_map(g));
    lemma_map_determines_list(s, l);
}

/// Takes one binding into a list without double keys: the label replaces
/// the label that the key had, or the binding is added.
fn merge_binding(list: &mut Vec<(String, String)>, key: &str, label: &str)
    requires
        distinct_names(pairs_of(old(list)@)),
    ensures
        distinct_names(pairs_of(final(list)@)),
        as_map(pairs_of(final(list)@)) == as_map(pairs_of(old(list)@)).insert(key@, label@),
{
    let ghost before = pairs_of(list@);
    let mut i: usize = 0;
    while i < list.len()
        invariant
            i <= list.len(),
            list@ == old(list)@,
            before == pairs_of(list@),
            distinct_names(before),
            forall|k: int| 0 <= k < i ==> before[k].0 != key@,
        decreases list.len() - i,
    {
        assert(before[i as int].0 == list@[i as int].0@);
        if same_text(list[i].0.as_str(), key) {
            list[i].1 = label.to_owned();
            proof {
                assert(pairs_of(list@) =~= before.update(i as int, (before[i as int].0, label@)));
                lemma_distinct_update(before, i as int, label@);
            }
            return ;
        }
        i = i + 1;
    }
    proof {
        assert(!has_name(before, key@));
        lemma_distinct_push(before, key@, label@);
    }
    list.push((key.to_owned(), label.to_owned()));
    assert(pairs_of(list@) =~= before.push((key@, label@)));
}

/// Takes bindings into a list without double keys, the first of them first.
fn merge_bindings(list: &mut Vec<(String, String)>, bindings: &Vec<(&'static str, &'static str)>)
    requires
        distinct_names(pairs_of(old(list)@)),
    ensures
        distinct_names(pairs_of(final(list)@)),
        forall|earlier: Seq<(Seq<char>, Seq<char>)>|
            as_map(pairs_of(old(list)@)) == merged(earlier) ==> as_map(pairs_of(final(list)@))
                == #[trigger] merged(earlier + texts_of(bindings@)),
{
    let ghost texts = texts_of(bindings@);
    let mut i: usize = 0;
    assert forall|earlier: Seq<(Seq<char>, Seq<char>)>| earlier + texts.take(0) =~= earlier by {}
    while i < bindings.len()
        invariant
            i <= bindings.len(),
            texts == texts_of(bindings@),
            distinct_names(pairs_of(list@)),
            forall|earlier: Seq<(Seq<char>, Seq<char>)>|
                as_map(pairs_of(old(list)@)) == merged(earlier) ==> as_map(pairs_of(list@))
                    == #[trigger] merged(earlier + texts.take(i as int)),
        decreases bindings.len() - i,
    {
        let ghost seen = as_map(pairs_of(list@));
        let (key, label) = bindings[i];
        merge_binding(list, key, label);
        proof {
            assert forall|earlier: Seq<(Seq<char>, Seq<char>)>|
                as_map(pairs_of(old(list)@)) == merged(earlier) implies as_map(pairs_of(list@))
                == #[trigger] merged(earlier + texts.take(i + 1)) by {
                let longer = earlier + texts.take(i + 1);
                assert(seen == merged(earlier + texts.take(i as int)));
                assert(longer.drop_last() =~= earlier + texts.take(i as int));
                assert(longer.last() == (key@, label@));
            }
        }
        i = i + 1;
    }
    assert(texts.take(i as int) =~= texts);
}

/// One binding as the legend shows it.
fn legend_entry(binding: &(String, String), width: usize) -> (cell: (String, String))
    requires
        binding.0@.len() <= width,
    ensures
        (cell.0@, cell.1@) == legend_cell((binding.0@, binding.1@), width as nat),
{
    let key_count = binding.0.as_str().unicode_len();
    let label_count = binding.1.as_str().unicode_len();
    let mut key = String::new();
    push_repeated(&mut key, ' ', width - key_count);
    key.append(binding.0.as_str());
    let mut label = String::new();
    push_char(&mut label, ' ');
    label.append(binding.1.as_str());
    let fill: usize = if width <= LEGEND_WIDTH && label_count <= LEGEND_WIDTH - width {
        LEGEND_WIDTH - width - label_count
    } else {
        0
    };
    push_repeated(&mut label, ' ', fill);
    proof {
        assert(key@ =~= blanks(width - binding.0@.len()) + binding.0@);
        assert(label@ =~= seq![' '] + binding.1@ + blanks(
            LEGEND_WIDTH - width - binding.1@.len(),
        ));
    }
    (key, label)
}

/// The legend: the bindings of the session together with those of the
/// active view, where the view's binding of a key replaces the session's,
/// dealt out to three rows in descending order of the keys.
pub fn legend(view_bindings: &Vec<(&'static str, &'static str)>) -> (rows: Vec<Vec<(String, String)>>)
    ensures
        rows_of(rows@) == legend_of(listing(merged(all_bindings(view_bindings@)))),
{
    let defaults = vec![("TAB", "Next tab"), ("B/TAB", "Previous tab"), ("q", "Exit")];
    assert(defaults@ =~= default_bindings());
    let mut list: Vec<(String, String)> = Vec::new();
    let ghost none = Seq::<(Seq<char>, Seq<char>)>::empty();
    proof {
        assert(pairs_of(list@) =~= none);
        assert(as_map(pairs_of(list@)) =~= merged(none));
        assert(none + texts_of(defaults@) =~= texts_of(defaults@));
    }
    merge_bindings(&mut list, &defaults);
    assert(as_map(pairs_of(list@)) == merged(none + texts_of(defaults@)));
    merge_bindings(&mut list, view_bindings);
    assert(as_map(pairs_of(list@)) == merged(texts_of(defaults@) + texts_of(view_bindings@)));
    let ghost given = list@;
    let sorted = sorted_by_name(list);
    proof {
        lemma_sorted_is_listing(given, sorted@);
    }
    let ghost l = pairs_of(sorted@);
    let width = widest_label(&sorted);
    let count = sorted.len();
    let mut rows: Vec<Vec<(String, String)>> = Vec::new();
    let mut row: usize = 0;
    assert(rows_of(rows@) =~= legend_of(l).take(0));
    while row < LEGEND_ROWS
        invariant
            row <= LEGEND_ROWS,
            l == pairs_of(sorted@),
            count == sorted.len(),
            width == widest(l),
            rows_of(rows@) == legend_of(l).take(row as int),
        decreases LEGEND_ROWS - row,
    {
        let mut cells: Vec<(String, String)> = Vec::new();
        let in_row: usize = if count > row {
            (count - row - 1) / LEGEND_ROWS + 1
        } else {
            0
        };
        assert(in_row == row_len(l.len(), row as int));
        let mut j: usize = 0;
        assert(pairs_of(cells@) =~= legend_row(l, row as int).take(0));
        while j < in_row
            invariant
                row < LEGEND_ROWS,
                l == pairs_of(sorted@),
                count == sorted.len(),
                width == widest(l),
                j <= in_row,
                in_row == row_len(l.len(), row as int),
                in_row > 0 ==> LEGEND_ROWS * (in_row - 1) + row < count,
                pairs_of(cells@) == legend_row(l, row as int).take(j as int),
            decreases in_row - j,
        {
            let at = count - 1 - (LEGEND_ROWS * j + row);
            proof {
                lemma_widest_bounds(l, at as int);
                assert(l[at as int] == (sorted@[at as int].0@, sorted@[at as int].1@));
            }
            let ghost before = pairs_of(cells@);
            let cell = legend_entry(&sorted[at], width);
            cells.push(cell);
            proof {
                assert(pairs_of(cells@) =~= before.push((cell.0@, cell.1@)));
                assert(pairs_of(cells@) =~= legend_row(l, row as int).take(j + 1));
            }
            j = j + 1;
        }
        proof {
            assert(legend_row(l, row as int).take(j as int) =~= legend_row(l, row as int));
        }
        let ghost shown = rows_of(rows@);
        rows.push(cells);
        proof {
            assert(rows_of(rows@) =~= shown.push(pairs_of(cells@)));
            assert(rows_of(rows@) =~= legend_of(l).take(row + 1));
        }
        row = row + 1;
    }
    assert(legend_of(l).take(LEGEND_ROWS as int) =~= legend_of(l));
    rows
}

} // verus!
