//! Adding an entry to the notes of a release.
use vstd::prelude::*;

use crate::model::{section_marker, ChangeType};
use crate::text::{
    append, append_str, chars_of, has_prefix_str, is_blank, join, join_with, lines, seq_eq,
    split_lines, starts_with, trim, trim_of, views,
};

verus! {

broadcast use vstd::string::group_string_axioms;

/// The first line at or after `i` that reads `marker` once trimmed.
pub open spec fn line_index(ls: Seq<Seq<char>>, marker: Seq<char>, i: int) -> Option<int>
    decreases ls.len() - i,
{
    if i < 0 || i >= ls.len() {
        None
    } else if trim(ls[i]) == marker {
        Some(i)
    } else {
        line_index(ls, marker, i + 1)
    }
}

/// An indented line that continues the list item above it.
pub open spec fn is_continuation(line: Seq<char>) -> bool {
    &&& starts_with(line, "  "@)
    &&& !starts_with(trim(line), "-"@)
    &&& !starts_with(trim(line), "### "@)
}

/// Where a section's list ends, reading from line `i`: past blank lines and
/// list items with their continuation lines (`in_item` when line `i` may
/// continue an item).
pub open spec fn scan_end(ls: Seq<Seq<char>>, i: int, in_item: bool) -> int
    decreases ls.len() - i,
{
    if i < 0 || i >= ls.len() {
        i
    } else if in_item && is_continuation(ls[i]) {
        scan_end(ls, i + 1, true)
    } else if trim(ls[i]).len() == 0 {
        scan_end(ls, i + 1, false)
    } else if starts_with(trim(ls[i]), "-"@) {
        scan_end(ls, i + 1, true)
    } else {
        i
    }
}

/// The lines and the insertion point after removing the blank lines just
/// above `at` (but not above `low`).
pub open spec fn drop_blanks_before(ls: Seq<Seq<char>>, at: int, low: int) -> (Seq<Seq<char>>, int)
    decreases at,
{
    if at > low && 0 < at <= ls.len() && trim(ls[at - 1]).len() == 0 {
        drop_blanks_before(ls.remove(at - 1), at - 1, low)
    } else {
        (ls, at)
    }
}

/// The first line at or after `i` that starts with `### `, or the end.
pub open spec fn first_section_from(ls: Seq<Seq<char>>, i: int) -> int
    decreases ls.len() - i,
{
    if i < 0 || i >= ls.len() {
        ls.len() as int
    } else if starts_with(ls[i], "### "@) {
        i
    } else {
        first_section_from(ls, i + 1)
    }
}

/// The notes of a release after adding the entry `desc` of type `t`: below
/// the last item of the section when the section exists (the entry ends in a
/// newline of its own), otherwise in a new section placed before the first
/// existing one.
pub open spec fn notes_with_entry(notes: Seq<char>, t: ChangeType, desc: Seq<char>) -> Seq<char> {
    join(entry_lines(notes, t, desc), "\n"@)
}

/// The lines of the notes after adding the entry (before they are joined).
pub open spec fn entry_lines(notes: Seq<char>, t: ChangeType, desc: Seq<char>) -> Seq<Seq<char>> {
    let ls = lines(notes);
    let marker = section_marker(t);
    match line_index(ls, marker, 0) {
        Some(k) => {
            let end = scan_end(ls, k + 1, false);
            let cut = drop_blanks_before(ls, end, k + 1);
            cut.0.insert(cut.1, "- "@ + desc + "\n"@)
        },
        None => {
            let at = first_section_from(ls, 0);
            ls.insert(at, marker).insert(at + 1, seq![]).insert(at + 2, "- "@ + desc).insert(
                at + 3,
                seq![],
            )
        },
    }
}

proof fn lemma_scan_end_bounds(ls: Seq<Seq<char>>, i: int, in_item: bool)
    requires
        0 <= i <= ls.len(),
    ensures
        i <= scan_end(ls, i, in_item) <= ls.len(),
    decreases ls.len() - i,
{
    if i < ls.len() {
        lemma_scan_end_bounds(ls, i + 1, true);
        lemma_scan_end_bounds(ls, i + 1, false);
    }
}

fn find_marker(ls: &Vec<Vec<char>>, marker: &Vec<char>) -> (r: Option<usize>)
    ensures
        match r {
            Some(k) => k < ls.len() && line_index(views(ls@), marker@, 0) == Some(k as int),
            None => line_index(views(ls@), marker@, 0) is None,
        },
{
    let mut i: usize = 0;
    while i < ls.len()
        invariant
            i <= ls.len(),
            line_index(views(ls@), marker@, 0) == line_index(views(ls@), marker@, i as int),
        decreases ls.len() - i,
    {
        assert(views(ls@)[i as int] == ls@[i as int]@);
        if seq_eq(&trim_of(&ls[i]), marker) {
            return Some(i);
        }
        i = i + 1;
    }
    None
}

fn continues_item(line: &Vec<char>) -> (r: bool)
    ensures
        r == is_continuation(line@),
{
    let t = trim_of(line);
    has_prefix_str(line, "  ") && !has_prefix_str(&t, "-") && !has_prefix_str(&t, "### ")
}

fn list_end(ls: &Vec<Vec<char>>, start: usize) -> (r: usize)
    requires
        start <= ls.len(),
    ensures
        r == scan_end(views(ls@), start as int, false),
        start <= r <= ls.len(),
{
    let ghost vs = views(ls@);
    let mut i = start;
    let mut in_item = false;
    proof {
        lemma_scan_end_bounds(vs, start as int, false);
    }
    while i < ls.len()
        invariant
            start <= i <= ls.len(),
            vs == views(ls@),
            scan_end(vs, start as int, false) == scan_end(vs, i as int, in_item),
        decreases ls.len() - i,
    {
        assert(vs[i as int] == ls@[i as int]@);
        if in_item && continues_item(&ls[i]) {
            i = i + 1;
        } else {
            let t = trim_of(&ls[i]);
            if t.len() == 0 {
                in_item = false;
                i = i + 1;
            } else if has_prefix_str(&t, "-") {
                in_item = true;
                i = i + 1;
            } else {
                return i;
            }
        }
    }
    i
}

fn section_start(ls: &Vec<Vec<char>>) -> (r: usize)
    ensures
        r == first_section_from(views(ls@), 0),
        r <= ls.len(),
{
    let mut i: usize = 0;
    while i < ls.len()
        invariant
            i <= ls.len(),
            first_section_from(views(ls@), 0) == first_section_from(views(ls@), i as int),
        decreases ls.len() - i,
    {
        assert(views(ls@)[i as int] == ls@[i as int]@);
        if has_prefix_str(&ls[i], "### ") {
            return i;
        }
        i = i + 1;
    }
    i
}

/// The notes of a release after adding the entry `desc` of type `t`.
pub fn insert_entry(notes: &Vec<char>, t: &ChangeType, desc: &Vec<char>) -> (r: Vec<char>)
    ensures
        r@ == notes_with_entry(notes@, *t, desc@),
{
    let mut ls = split_lines(notes);
    let marker = t.section_marker();
    let nl = chars_of("\n");
    match find_marker(&ls, &marker) {
        Some(k) => {
            let end = list_end(&ls, k + 1);
            let mut at = end;
            let ghost low = k + 1;
            while at > k + 1 && is_blank(&ls[at - 1])
                invariant
                    k + 1 <= at <= ls.len(),
                    low == k + 1,
                    drop_blanks_before(views(ls@), at as int, low) == drop_blanks_before(
                        lines(notes@),
                        end as int,
                        low,
                    ),
                decreases at,
            {
                let ghost prev = ls@;
                let ghost old_at = at as int;
                assert(views(prev)[at - 1] == prev[at - 1]@);
                ls.remove(at - 1);
                assert(views(ls@) =~= views(prev).remove(at - 1));
                at = at - 1;
                assert(drop_blanks_before(views(prev), old_at, low) == drop_blanks_before(
                    views(ls@),
                    at as int,
                    low,
                ));
            }
            assert(at <= k + 1 || trim(views(ls@)[at - 1]).len() != 0) by {
                if at > k + 1 {
                    assert(views(ls@)[at - 1] == ls@[at - 1]@);
                }
            }
            let mut entry = chars_of("- ");
            append(&mut entry, desc);
            append_str(&mut entry, "\n");
            let ghost prev = ls@;
            ls.insert(at, entry);
            assert(views(ls@) =~= views(prev).insert(at as int, "- "@ + desc@ + "\n"@));
            join_with(&ls, &nl)
        },
        None => {
            let at = section_start(&ls);
            let ghost v0 = views(ls@);
            let mut entry = chars_of("- ");
            append(&mut entry, desc);
            let ghost e = entry@;
            ls.insert(at, marker);
            assert(at + 1 <= ls.len());
            ls.insert(at + 1, Vec::new());
            assert(at + 2 <= ls.len());
            ls.insert(at + 2, entry);
            assert(at + 3 <= ls.len());
            ls.insert(at + 3, Vec::new());
            assert(views(ls@) =~= v0.insert(at as int, section_marker(*t)).insert(
                at + 1,
                seq![],
            ).insert(at + 2, e).insert(at + 3, seq![]));
            join_with(&ls, &nl)
        },
    }
}

} // verus!
