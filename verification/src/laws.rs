//! Properties that hold across the operations of the library.
use vstd::prelude::*;

use crate::changelog::{
    add_outcome, allowed_credit, credited, find_version, find_version_from, fmt_outcome,
    is_excluded, key_or_unreleased, with_entry,
    ReleaseView,
};
use crate::external::{conventional_commit, parsed_changelog, semver_parsed};
use crate::entries::{
    drop_blanks_before, entry_lines, first_section_from, is_continuation, line_index, scan_end,
};
use crate::markdown::{
    drop_link_tail, header_of, is_h3, kept_lines, link_definitions, link_target, markdown,
    newline_terminated, removed_links, render_all, render_release, repo_base,
};
use crate::model::{change_name, section_marker, ChangeType, Failure};
use crate::review::{editor_line, preselected_spec, review_entry, suggested, type_for_code};
use crate::github::repo_of_remote;
use crate::text::{
    after, before, contains, decimal, eq_ignore_ascii_case, split_on, ends_with, find, is_ws, join, lemma_find, lines, lines_after, occurs_at,
    second_piece, starts_with, strip_cr, strip_prefixes, strip_suffixes, trim, trim_end, trim_start,
};
use crate::versions::{
    after_release, bare_version, bump_outcome, index_from, insert_all, is_bump, show_outcome, key_pos, latest_outcome, latest_word,
    list_outcome, map_insert, next_version_outcome, range_outcome, release_outcome, release_title,
    release_with, released_versions, unreleased_template, values_of, KeyedView,
};

verus! {

broadcast use vstd::string::group_string_axioms;

/// A change type's name is a type code for that same type, and so is its
/// first letter: what the editor lists and the command line accepts names
/// each type back.
pub proof fn type_code_round_trip(t: ChangeType)
    ensures
        type_for_code(change_name(t)) == t,
        type_for_code(change_name(t).subrange(0, 1)) == t,
{
    type_code_letters();
    let code = change_name(t);
    let letter = code.subrange(0, 1);
    assert(letter[0] == code[0]);
    match t {
        ChangeType::Added => {
            assert(letter =~= "a"@);
        },
        ChangeType::Changed => {
            assert(letter =~= "c"@);
        },
        ChangeType::Deprecated => {
            assert(letter =~= "d"@);
        },
        ChangeType::Removed => {
            assert(letter =~= "r"@);
        },
        ChangeType::Fixed => {
            assert(letter =~= "f"@);
        },
        ChangeType::Security => {
            assert(letter =~= "s"@);
        },
    }
}

proof fn type_code_letters()
    ensures
        "added"@.len() > 0 && "added"@[0] == 'a',
        "changed"@.len() > 0 && "changed"@[0] == 'c',
        "deprecated"@.len() > 0 && "deprecated"@[0] == 'd',
        "removed"@.len() > 0 && "removed"@[0] == 'r',
        "fixed"@.len() > 0 && "fixed"@[0] == 'f',
        "security"@.len() > 0 && "security"@[0] == 's',
        "a"@ =~= seq!['a'],
        "c"@ =~= seq!['c'],
        "d"@ =~= seq!['d'],
        "r"@ =~= seq!['r'],
        "f"@ =~= seq!['f'],
        "s"@ =~= seq!['s'],
{
    reveal_strlit("added");
    reveal_strlit("changed");
    reveal_strlit("deprecated");
    reveal_strlit("removed");
    reveal_strlit("fixed");
    reveal_strlit("security");
    reveal_strlit("a");
    reveal_strlit("c");
    reveal_strlit("d");
    reveal_strlit("r");
    reveal_strlit("f");
    reveal_strlit("s");
}

/// Every rendered changelog ends with a newline.
pub proof fn markdown_ends_with_newline(
    rs: Seq<ReleaseView>,
    original: Seq<char>,
    github: Option<(Seq<char>, Seq<char>)>,
)
    ensures
        ends_with(markdown(rs, original, github), "\n"@),
{
    let m = markdown(rs, original, github);
    let s = choose|s: Seq<char>| newline_terminated(s) == m;
    assert(exists|s: Seq<char>| newline_terminated(s) == m);
    newline_terminated_ends(s);
}

proof fn newline_terminated_ends(s: Seq<char>)
    ensures
        ends_with(newline_terminated(s), "\n"@),
{
    if !ends_with(s, "\n"@) {
        let t = s + "\n"@;
        assert(t.subrange(t.len() - ("\n"@).len(), t.len() as int) =~= "\n"@);
    }
}

proof fn trim_end_twice(s: Seq<char>)
    ensures
        trim_end(trim_end(s)) == trim_end(s),
        trim_end(s).len() == 0 || !is_ws(trim_end(s).last()),
    decreases s.len(),
{
    if s.len() > 0 && is_ws(s.last()) {
        trim_end_twice(s.drop_last());
    }
}

proof fn render_keeps_start(
    rs: Seq<ReleaseView>,
    start: Seq<char>,
    github: bool,
)
    ensures
        starts_with(render_all(rs, start, github).0, start),
    decreases rs.len(),
{
    if rs.len() == 0 {
        assert(start.subrange(0, start.len() as int) =~= start);
    } else {
        let prev = render_all(rs.drop_last(), start, github);
        render_keeps_start(rs.drop_last(), start, github);
        let next = render_release(prev.0, prev.1, rs.last(), github).0;
        assert(starts_with(next, prev.0)) by {
            if !contains(rs.last().2, "# Changelog"@) {
                let tail = next.subrange(prev.0.len() as int, next.len() as int);
                assert(next =~= prev.0 + tail);
            }
            assert(next.subrange(0, prev.0.len() as int) =~= prev.0);
        }
        assert(next.subrange(0, start.len() as int) =~= prev.0.subrange(0, start.len() as int));
    }
}

proof fn lines_split_at_newline(a: Seq<char>, b: Seq<char>, cur: Seq<char>)
    ensures
        lines_after(a + seq!['\n'] + b, cur) == lines_after(a + seq!['\n'], cur) + lines_after(
            b,
            seq![],
        ),
    decreases a.len(),
{
    let s = a + seq!['\n'] + b;
    let t = a + seq!['\n'];
    if a.len() == 0 {
        assert(s.drop_first() =~= b);
        assert(t.drop_first() =~= Seq::<char>::empty());
        assert(s[0] == '\n' && t[0] == '\n');
        assert(lines_after(t, cur) == seq![strip_cr(cur)] + lines_after(Seq::<char>::empty(), seq![]));
        assert(lines_after(Seq::<char>::empty(), seq![]) =~= Seq::<Seq<char>>::empty());
        assert(seq![strip_cr(cur)] + Seq::<Seq<char>>::empty() =~= seq![strip_cr(cur)]);
    } else {
        assert(s.drop_first() =~= a.drop_first() + seq!['\n'] + b);
        assert(t.drop_first() =~= a.drop_first() + seq!['\n']);
        assert(s[0] == a[0] && t[0] == a[0]);
        if a[0] == '\n' {
            lines_split_at_newline(a.drop_first(), b, seq![]);
            assert(seq![strip_cr(cur)] + lines_after(a.drop_first() + seq!['\n'], seq![])
                + lines_after(b, seq![]) =~= seq![strip_cr(cur)] + (lines_after(
                a.drop_first() + seq!['\n'],
                seq![],
            ) + lines_after(b, seq![])));
        } else {
            lines_split_at_newline(a.drop_first(), b, cur.push(a[0]));
        }
    }
}

proof fn lines_of_terminated(s: Seq<char>, cur: Seq<char>)
    ensures
        lines_after(s + seq!['\n'], cur).len() > 0,
    decreases s.len(),
{
    let t = s + seq!['\n'];
    if s.len() > 0 {
        assert(t.drop_first() =~= s.drop_first() + seq!['\n']);
        assert(t[0] == s[0]);
        if s[0] != '\n' {
            lines_of_terminated(s.drop_first(), cur.push(s[0]));
        }
    } else {
        assert(t[0] == '\n');
    }
}

proof fn join_append(a: Seq<Seq<char>>, b: Seq<Seq<char>>, sep: Seq<char>)
    requires
        a.len() > 0,
        b.len() > 0,
    ensures
        join(a + b, sep) == join(a, sep) + sep + join(b, sep),
    decreases b.len(),
{
    let ab = a + b;
    assert(ab.last() == b.last());
    if b.len() == 1 {
        assert(ab.drop_last() =~= a);
    } else {
        assert(ab.drop_last() =~= a + b.drop_last());
        join_append(a, b.drop_last(), sep);
        assert(join(a, sep) + sep + join(b.drop_last(), sep) + sep + b.last() =~= join(a, sep) + sep
            + (join(b.drop_last(), sep) + sep + b.last()));
    }
}

/// The characters `\r\n`.
spec fn crlf() -> Seq<char> {
    seq!['\r', '\n']
}

proof fn lines_rejoin(s: Seq<char>, cur: Seq<char>)
    requires
        forall|k: int| !(#[trigger] occurs_at(cur + s + seq!['\n'], crlf(), k)),
    ensures
        join(lines_after(s + seq!['\n'], cur), "\n"@) == cur + s,
    decreases s.len(),
{
    reveal_strlit("\n");
    assert("\n"@ =~= seq!['\n']);
    let t = s + seq!['\n'];
    let whole = cur + s + seq!['\n'];
    if cur.len() > 0 && (s.len() == 0 || s[0] == '\n') {
        if cur.last() == '\r' {
            assert(whole.subrange(cur.len() - 1, cur.len() + 1int) =~= crlf());
            assert(occurs_at(whole, crlf(), cur.len() - 1));
        }
    }
    if s.len() == 0 {
        assert(t.drop_first() =~= Seq::<char>::empty());
        assert(t[0] == '\n');
        assert(cur + s =~= cur);
        assert(lines_after(Seq::<char>::empty(), seq![]) =~= Seq::<Seq<char>>::empty());
        assert(lines_after(t, cur) =~= seq![strip_cr(cur)]);
        assert(strip_cr(cur) == cur);
        assert(join(seq![cur], "\n"@) == cur);
    } else {
        assert(t.drop_first() =~= s.drop_first() + seq!['\n']);
        assert(t[0] == s[0]);
        if s[0] == '\n' {
            let rest = s.drop_first();
            assert forall|k: int| !(#[trigger] occurs_at(Seq::<char>::empty() + rest + seq!['\n'], crlf(), k)) by {
                let r2 = Seq::<char>::empty() + rest + seq!['\n'];
                if occurs_at(r2, crlf(), k) {
                    let off = cur.len() + 1;
                    assert(whole.subrange(k + off, k + off + 2) =~= r2.subrange(k, k + 2));
                    assert(occurs_at(whole, crlf(), k + off));
                }
            }
            lines_rejoin(rest, seq![]);
            lines_of_terminated(rest, seq![]);
            assert(lines_after(t, cur) == seq![strip_cr(cur)] + lines_after(rest + seq!['\n'], seq![]));
            assert(strip_cr(cur) == cur);
            assert(join(seq![cur], "\n"@) == cur);
            join_append(seq![cur], lines_after(rest + seq!['\n'], seq![]), "\n"@);
            assert(seq![strip_cr(cur)] + lines_after(rest + seq!['\n'], seq![]) == seq![cur]
                + lines_after(rest + seq!['\n'], seq![]));
            assert(cur + "\n"@ + (Seq::<char>::empty() + rest) =~= cur + s);
        } else {
            let c2 = cur.push(s[0]);
            assert(c2 + s.drop_first() + seq!['\n'] =~= whole);
            assert(c2 + s.drop_first() =~= cur + s);
            lines_rejoin(s.drop_first(), c2);
        }
    }
}

proof fn link_tail_after_guard(p: Seq<Seq<char>>, b: Seq<Seq<char>>)
    requires
        p.len() > 0,
        !starts_with(trim(p.last()), "["@),
    ensures
        drop_link_tail(p + b) == p + drop_link_tail(b),
    decreases b.len(),
{
    let pb = p + b;
    if b.len() == 0 {
        assert(pb =~= p);
        assert(p + Seq::<Seq<char>>::empty() =~= p);
    } else {
        assert(pb.last() == b.last());
        if starts_with(trim(b.last()), "["@) {
            assert(pb.drop_last() =~= p + b.drop_last());
            link_tail_after_guard(p, b.drop_last());
        }
    }
}

/// The rendered text keeps the header of the original text: it starts with
/// everything before the first level-two heading, then a line break (for a
/// header without `\r\n` line endings, which line splitting would change).
pub proof fn header_is_kept(
    rs: Seq<ReleaseView>,
    original: Seq<char>,
    github: Option<(Seq<char>, Seq<char>)>,
)
    requires
        !contains(header_of(original), "\r\n"@),
    ensures
        starts_with(markdown(rs, original, github), header_of(original) + "\n"@),
{
    reveal_strlit("\n");
    reveal_strlit("\n\n");
    reveal_strlit("\r\n");
    reveal_strlit("[");
    let h = header_of(original);
    let inner = match find(original, "\n## "@) {
        Some(i) => original.subrange(0, i),
        None => original,
    };
    assert(h == trim_end(inner));
    trim_end_twice(inner);
    let start = trim_end(h) + "\n\n"@;
    assert(start =~= h + seq!['\n'] + seq!['\n']);
    let rendered = render_all(rs, start, github is Some);
    render_keeps_start(rs, start, github is Some);
    let x = rendered.0.subrange(start.len() as int, rendered.0.len() as int);
    assert(rendered.0 =~= start + x);
    assert(rendered.0 =~= h + seq!['\n'] + (seq!['\n'] + x));
    lines_split_at_newline(h, seq!['\n'] + x, seq![]);
    let lh = lines_after(h + seq!['\n'], seq![]);
    assert((seq!['\n'] + x).drop_first() =~= x);
    assert(lines_after(seq!['\n'] + x, seq![]) == seq![strip_cr(seq![])] + lines_after(x, seq![]));
    assert(strip_cr(Seq::<char>::empty()) =~= Seq::<char>::empty());
    let guard = lh + seq![Seq::<char>::empty()];
    assert(lines(rendered.0) =~= guard + lines(x));
    assert(!starts_with(trim(guard.last()), "["@));
    link_tail_after_guard(guard, lines(x));
    let kept = drop_link_tail(lines(rendered.0));
    assert(kept =~= lh + (seq![Seq::<char>::empty()] + drop_link_tail(lines(x))));
    lemma_find(h, "\r\n"@);
    assert(crlf() =~= "\r\n"@);
    assert forall|k: int| !(#[trigger] occurs_at(Seq::<char>::empty() + h + seq!['\n'], crlf(), k)) by {
        let w = Seq::<char>::empty() + h + seq!['\n'];
        if occurs_at(w, crlf(), k) {
            if k + 2 <= h.len() {
                assert(h.subrange(k, k + 2) =~= w.subrange(k, k + 2));
                assert(occurs_at(h, "\r\n"@, k));
            } else {
                assert(w.subrange(k, k + 2)[0] == crlf()[0]);
                assert(h[k] == '\r');
                assert(h.last() == h[k]);
            }
        }
    }
    lines_rejoin(h, seq![]);
    lines_of_terminated(h, seq![]);
    let rest = seq![Seq::<char>::empty()] + drop_link_tail(lines(x));
    join_append(lh, rest, "\n"@);
    let body = join(kept, "\n"@);
    assert(Seq::<char>::empty() + h =~= h);
    assert(body == h + "\n"@ + join(rest, "\n"@));
    let prefix = h + "\n"@;
    assert(body.subrange(0, prefix.len() as int) =~= prefix);
    let m = markdown(rs, original, github);
    assert(m.subrange(0, body.len() as int) =~= body) by {
        let linked = match github {
            Some(g) => if rendered.1.len() > 0 {
                body + (if ends_with(body, "\n"@) {
                    "\n"@
                } else {
                    "\n\n"@
                }) + crate::markdown::link_definitions(
                    rendered.1,
                    crate::markdown::repo_base(g.0, g.1),
                    rendered.1.len() as int,
                )
            } else {
                body
            },
            None => body,
        };
        assert(linked.subrange(0, body.len() as int) =~= body);
        assert(newline_terminated(linked).subrange(0, linked.len() as int) =~= linked);
    }
    assert(m.subrange(0, prefix.len() as int) =~= prefix);
}

proof fn kept_lines_all(ls: Seq<Seq<char>>)
    ensures
        kept_lines(ls, seq![]) == ls,
    decreases ls.len(),
{
    if ls.len() > 0 {
        kept_lines_all(ls.drop_last());
        assert(ls.drop_last().push(ls.last()) =~= ls);
    }
}

/// Removing the link definitions of no version removes no line.
pub proof fn no_versions_no_removal(content: Seq<char>)
    ensures
        removed_links(content, seq![]) == join(lines(content), "\n"@),
{
    kept_lines_all(lines(content));
}

/// The latest version is the first that the version list shows, and the
/// latest version is missing exactly when the list is empty.
pub proof fn latest_is_first_listed(content: Option<Seq<char>>)
    ensures
        match list_outcome(content) {
            Ok(l) => if l.len() > 0 {
                latest_outcome(content) == Ok::<_, Failure>(l[0])
            } else {
                latest_outcome(content) == Err::<Seq<char>, _>(Failure::NoReleasedVersions)
            },
            Err(f) => latest_outcome(content) == Err::<Seq<char>, _>(f),
        },
{
}

proof fn find_version_bounds(rs: Seq<ReleaseView>, key: Seq<char>, i: int)
    requires
        0 <= i,
    ensures
        match find_version_from(rs, key, i) {
            Some(k) => i <= k < rs.len() && rs[k].0 == key,
            None => true,
        },
    decreases rs.len() - i,
{
    if i < rs.len() && rs[i].0 != key {
        find_version_bounds(rs, key, i + 1);
    }
}

/// Adding an entry changes only the notes of the chosen release: the same
/// releases stay, in the same order, with the same versions and titles.
pub proof fn add_changes_only_chosen_notes(
    rs: Seq<ReleaseView>,
    key: Seq<char>,
    t: ChangeType,
    desc: Seq<char>,
)
    ensures
        match with_entry(rs, key, t, desc) {
            Some(rs2) => {
                &&& rs2.len() == rs.len()
                &&& find_version(rs, key) is Some
                &&& forall|i: int| 0 <= i < rs.len() ==> #[trigger] rs2[i].0 == rs[i].0 && rs2[i].1 == rs[i].1
                &&& forall|i: int|
                    0 <= i < rs.len() && Some(i) != find_version(rs, key) ==> #[trigger] rs2[i]
                        == rs[i]
            },
            None => find_version(rs, key) is None,
        },
{
    find_version_bounds(rs, key, 0);
}


proof fn key_pos_absent(es: Seq<KeyedView>, k: Seq<char>, i: int)
    requires
        0 <= i,
        forall|j: int| i <= j < es.len() ==> es[j].0 != k,
    ensures
        key_pos(es, k, i) is None,
    decreases es.len() - i,
{
    if i < es.len() {
        key_pos_absent(es, k, i + 1);
    }
}

/// The keyed form of releases inserted under their versions.
pub open spec fn keyed(rest: Seq<ReleaseView>) -> Seq<KeyedView> {
    rest.map_values(|r: ReleaseView| (r.0, r))
}

proof fn insert_all_appends(base: Seq<KeyedView>, rest: Seq<ReleaseView>)
    requires
        forall|a: int, b: int| 0 <= a < b < rest.len() ==> rest[a].0 != rest[b].0,
        forall|a: int, b: int| 0 <= a < base.len() && 0 <= b < rest.len() ==> base[a].0 != rest[b].0,
    ensures
        insert_all(base, rest) == base + keyed(rest),
    decreases rest.len(),
{
    if rest.len() > 0 {
        let prev = rest.drop_last();
        insert_all_appends(base, prev);
        let es = base + keyed(prev);
        assert forall|j: int| 0 <= j < es.len() implies es[j].0 != rest.last().0 by {
            if j < base.len() {
                assert(base[j].0 != rest[rest.len() - 1].0);
            } else {
                assert(es[j] == keyed(prev)[j - base.len()]);
                assert(prev[j - base.len()] == rest[j - base.len()]);
            }
        }
        key_pos_absent(es, rest.last().0, 0);
        assert(es.push((rest.last().0, rest.last())) =~= base + keyed(rest));
    } else {
        assert(base + keyed(rest) =~= base);
    }
}

/// Releasing puts a fresh unreleased section first and the released notes,
/// under the new heading, second; every other release follows in its
/// original order. (This holds when the versions are distinct and none of
/// them equals the new heading, which the changelog parser ensures for the
/// first and its version format for the second.)
pub proof fn release_keeps_order(
    rs: Seq<ReleaseView>,
    i: int,
    fresh: ReleaseView,
    version: Seq<char>,
    date: Seq<char>,
)
    requires
        0 <= i < rs.len(),
        rs[i].0 == "Unreleased"@,
        forall|a: int, b: int| 0 <= a < b < rs.len() ==> rs[a].0 != rs[b].0,
        forall|a: int| 0 <= a < rs.len() ==> rs[a].0 != release_title(version, date),
    ensures
        after_release(rs, i, fresh, version, date) == seq![
            fresh,
            (rs[i].0, release_title(version, date), rs[i].2),
        ] + rs.remove(i),
{
    reveal_strlit("Unreleased");
    reveal_strlit("[");
    let title = release_title(version, date);
    assert(title[0] == '[');
    assert(title != "Unreleased"@) by {
        assert("Unreleased"@[0] == 'U');
    }
    let released = (rs[i].0, title, rs[i].2);
    let start = seq![("Unreleased"@, fresh)];
    key_pos_absent(start, title, 0);
    let base = map_insert(start, title, released);
    assert(base =~= seq![("Unreleased"@, fresh), (title, released)]);
    let rest = rs.remove(i);
    assert forall|a: int, b: int| 0 <= a < b < rest.len() implies rest[a].0 != rest[b].0 by {
        let a2 = if a < i { a } else { a + 1 };
        let b2 = if b < i { b } else { b + 1 };
        assert(rest[a] == rs[a2]);
        assert(rest[b] == rs[b2]);
    }
    assert forall|a: int, b: int| 0 <= a < base.len() && 0 <= b < rest.len() implies base[a].0
        != rest[b].0 by {
        let b2 = if b < i { b } else { b + 1 };
        assert(rest[b] == rs[b2]);
        if a == 0 {
            assert(rs[b2].0 != rs[i].0);
        }
    }
    insert_all_appends(base, rest);
    assert(values_of(base + keyed(rest)) =~= seq![fresh, released] + rest);
}


proof fn line_index_found(ls: Seq<Seq<char>>, marker: Seq<char>, i: int)
    requires
        0 <= i,
    ensures
        match line_index(ls, marker, i) {
            Some(k) => i <= k < ls.len() && trim(ls[k]) == marker,
            None => true,
        },
    decreases ls.len() - i,
{
    if i < ls.len() && trim(ls[i]) != marker {
        line_index_found(ls, marker, i + 1);
    }
}

proof fn heading_chars()
    ensures
        "### "@.len() == 4 && "### "@[0] == '#',
        "-"@.len() == 1 && "-"@[0] == '-',
        "- "@.len() == 2 && "- "@[0] == '-',
{
    reveal_strlit("### ");
    reveal_strlit("-");
    reveal_strlit("- ");
}

proof fn scan_passes_no_heading(ls: Seq<Seq<char>>, i: int, in_item: bool)
    requires
        0 <= i <= ls.len(),
    ensures
        i <= scan_end(ls, i, in_item) <= ls.len(),
        forall|m: int| i <= m < scan_end(ls, i, in_item) ==> !is_h3(#[trigger] ls[m]),
    decreases ls.len() - i,
{
    heading_chars();
    if i < ls.len() {
        scan_passes_no_heading(ls, i + 1, true);
        scan_passes_no_heading(ls, i + 1, false);
        let e = scan_end(ls, i, in_item);
        if e > i {
            let t = trim(ls[i]);
            if !(in_item && is_continuation(ls[i])) && t.len() > 0 {
                assert(starts_with(t, "-"@));
                assert(t.subrange(0, 1)[0] == "-"@[0]);
                assert(t[0] == '-');
                if starts_with(t, "### "@) {
                    assert(t.subrange(0, 4)[0] == "### "@[0]);
                }
            }
        }
    }
}

proof fn drop_blanks_keeps_prefix(ls: Seq<Seq<char>>, at: int, low: int)
    requires
        0 <= low <= at <= ls.len(),
    ensures
        low <= drop_blanks_before(ls, at, low).1 <= at,
        drop_blanks_before(ls, at, low).1 <= drop_blanks_before(ls, at, low).0.len(),
        forall|m: int|
            0 <= m < drop_blanks_before(ls, at, low).1 ==> #[trigger] drop_blanks_before(
                ls,
                at,
                low,
            ).0[m] == ls[m],
    decreases at,
{
    if at > low && 0 < at <= ls.len() && trim(ls[at - 1]).len() == 0 {
        drop_blanks_keeps_prefix(ls.remove(at - 1), at - 1, low);
    }
}

proof fn marker_is_trimmed(t: ChangeType)
    ensures
        trim(section_marker(t)) == section_marker(t),
{
    reveal_strlit("### Added");
    reveal_strlit("### Changed");
    reveal_strlit("### Deprecated");
    reveal_strlit("### Removed");
    reveal_strlit("### Fixed");
    reveal_strlit("### Security");
    let m = section_marker(t);
    assert(m.len() > 0 && !is_ws(m.last()));
    assert(trim_end(m) == m);
    assert(m[0] == '#');
    assert(trim_start(m) == m);
}

/// An added entry lands under the heading of its own section: some line of
/// the new notes is the section's heading, a later line is the entry, and no
/// section heading stands between them.
pub proof fn entry_lands_in_its_section(notes: Seq<char>, t: ChangeType, desc: Seq<char>)
    ensures
        exists|j: int, k: int|
            0 <= j < k < entry_lines(notes, t, desc).len() && trim(
                #[trigger] entry_lines(notes, t, desc)[j],
            ) == section_marker(t) && starts_with(
                #[trigger] entry_lines(notes, t, desc)[k],
                "- "@ + desc,
            ) && forall|m: int| j < m < k ==> !is_h3(#[trigger] entry_lines(notes, t, desc)[m]),
{
    heading_chars();
    let ls = lines(notes);
    let marker = section_marker(t);
    let l = entry_lines(notes, t, desc);
    let entry_head = "- "@ + desc;
    line_index_found(ls, marker, 0);
    match line_index(ls, marker, 0) {
        Some(k0) => {
            let end = scan_end(ls, k0 + 1, false);
            scan_passes_no_heading(ls, k0 + 1, false);
            drop_blanks_keeps_prefix(ls, end, k0 + 1);
            let cut = drop_blanks_before(ls, end, k0 + 1);
            let entry = entry_head + "\n"@;
            assert(l == cut.0.insert(cut.1, entry));
            assert(l[k0] == cut.0[k0]);
            assert(l[cut.1] == entry);
            assert(entry.subrange(0, entry_head.len() as int) =~= entry_head);
            assert forall|m: int| k0 < m < cut.1 implies !is_h3(#[trigger] l[m]) by {
                assert(l[m] == cut.0[m]);
                assert(cut.0[m] == ls[m]);
            }
            assert(0 <= k0 < cut.1 < l.len());
        },
        None => {
            let at = first_section_from(ls, 0);
            first_section_bounds(ls, 0);
            marker_is_trimmed(t);
            let l1 = ls.insert(at, marker);
            let l2 = l1.insert(at + 1, seq![]);
            let l3 = l2.insert(at + 2, entry_head);
            assert(l == l3.insert(at + 3, seq![]));
            assert(l[at] == marker);
            assert(l[at + 2] == entry_head);
            assert(entry_head.subrange(0, entry_head.len() as int) =~= entry_head);
            assert(l[at + 1] == Seq::<char>::empty());
            assert(trim(Seq::<char>::empty()) =~= Seq::<char>::empty());
            assert(!is_h3(l[at + 1]));
            assert forall|m: int| at < m < at + 2 implies !is_h3(#[trigger] l[m]) by {
                assert(m == at + 1);
            }
            assert(0 <= at < at + 2 < l.len());
        },
    }
}

proof fn first_section_bounds(ls: Seq<Seq<char>>, i: int)
    requires
        0 <= i <= ls.len(),
    ensures
        i <= first_section_from(ls, i) <= ls.len(),
    decreases ls.len() - i,
{
    if i < ls.len() {
        first_section_bounds(ls, i + 1);
    }
}


proof fn find_single(a: Seq<char>, c: char, b: Seq<char>)
    requires
        !a.contains(c),
    ensures
        find(a + seq![c] + b, seq![c]) == Some(a.len() as int),
{
    let s = a + seq![c] + b;
    lemma_find(s, seq![c]);
    assert(s.subrange(a.len() as int, a.len() + 1int) =~= seq![c]);
    assert(occurs_at(s, seq![c], a.len() as int));
    match find(s, seq![c]) {
        Some(k) => {
            if k < a.len() {
                assert(s.subrange(k, k + 1)[0] == s[k]);
                assert(s[k] == a[k]);
                assert(a.contains(c));
            }
        },
        None => {},
    }
}

proof fn find_none_single(a: Seq<char>, c: char)
    requires
        !a.contains(c),
    ensures
        find(a, seq![c]) is None,
{
    lemma_find(a, seq![c]);
    match find(a, seq![c]) {
        Some(k) => {
            assert(a.subrange(k, k + 1)[0] == a[k]);
            assert(a.contains(c));
        },
        None => {},
    }
}

proof fn strip_git_once(x: Seq<char>)
    requires
        !ends_with(x, ".git"@),
    ensures
        strip_suffixes(x + ".git"@, ".git"@) == x,
        strip_suffixes(x, ".git"@) == x,
{
    reveal_strlit(".git");
    assert(strip_suffixes(x, ".git"@) == x);
    let y = x + ".git"@;
    assert(y.subrange(y.len() - 4, y.len() as int) =~= ".git"@);
    assert(ends_with(y, ".git"@));
    assert(y.subrange(0, y.len() - (".git"@).len()) =~= x);
    assert(strip_suffixes(y, ".git"@) == strip_suffixes(x, ".git"@));
}

proof fn path_not_git(o: Seq<char>, r: Seq<char>)
    requires
        !r.contains('/'),
        !ends_with(r, ".git"@),
    ensures
        !ends_with(o + seq!['/'] + r, ".git"@),
{
    reveal_strlit(".git");
    let x = o + seq!['/'] + r;
    if ends_with(x, ".git"@) {
        if r.len() >= 4 {
            assert(x.subrange(x.len() - 4, x.len() as int) =~= r.subrange(
                r.len() - 4,
                r.len() as int,
            ));
        } else {
            let i = o.len() as int;
            assert(x[i] == '/');
            let d = i - (x.len() - 4);
            assert(0 <= d < 4);
            assert(x.subrange(x.len() - 4, x.len() as int)[d] == x[i]);
        }
    }
}

proof fn split_owner_repo(o: Seq<char>, r: Seq<char>)
    requires
        !o.contains('/'),
        !r.contains('/'),
    ensures
        after(o + seq!['/'] + r, "/"@) == Some(r),
        before(o + seq!['/'] + r, "/"@) == o,
        before(r, "/"@) == r,
{
    reveal_strlit("/");
    assert("/"@ =~= seq!['/']);
    find_single(o, '/', r);
    find_none_single(r, '/');
    let x = o + seq!['/'] + r;
    assert(x.subrange(o.len() + 1int, x.len() as int) =~= r);
    assert(x.subrange(0, o.len() as int) =~= o);
}

/// An SSH remote address `git@github.com:<owner>/<name>.git` names that
/// owner and repository (for names without `/`, an owner that does not
/// itself start with `git@github.com:`, and a repository that does not
/// itself end in `.git`).
pub proof fn ssh_remote_round_trip(owner: Seq<char>, name: Seq<char>)
    requires
        !owner.contains('/') && !starts_with(owner, "git@github.com:"@),
        !name.contains('/'),
        !ends_with(name, ".git"@),
    ensures
        repo_of_remote("git@github.com:"@ + owner + "/"@ + name + ".git"@) == Some((owner, name)),
{
    reveal_strlit("git@github.com:");
    reveal_strlit("/");
    reveal_strlit(".git");
    let p = "git@github.com:"@;
    assert("/"@ =~= seq!['/']);
    let rest = owner + seq!['/'] + name + ".git"@;
    let url = p + owner + "/"@ + name + ".git"@;
    assert(url =~= p + rest);
    assert(url.subrange(0, p.len() as int) =~= p);
    assert(url.subrange(p.len() as int, url.len() as int) =~= rest);
    assert(!starts_with(rest, p)) by {
        if starts_with(rest, p) {
            let i = owner.len() as int;
            if i < 15 {
                assert(rest[i] == '/');
                assert(rest.subrange(0, 15)[i] == p[i]);
            } else {
                assert(owner.subrange(0, 15) =~= rest.subrange(0, 15));
            }
        }
    }
    assert(strip_prefixes(rest, p) == rest);
    assert(strip_prefixes(url, p) == strip_prefixes(rest, p));
    path_not_git(owner, name);
    assert(rest =~= (owner + seq!['/'] + name) + ".git"@);
    strip_git_once(owner + seq!['/'] + name);
    split_owner_repo(owner, name);
}

proof fn github_marker_first(rest: Seq<char>)
    ensures
        find("https://github.com/"@ + rest, "github.com/"@) == Some(8int),
        contains("https://github.com/"@ + rest, "github.com"@),
{
    reveal_strlit("https://github.com/");
    reveal_strlit("github.com/");
    reveal_strlit("github.com");
    let url = "https://github.com/"@ + rest;
    let m = "github.com/"@;
    lemma_find(url, m);
    assert(url.subrange(8, 19) =~= m);
    assert(occurs_at(url, m, 8));
    match find(url, m) {
        Some(k) => {
            if k < 8 {
                assert(url.subrange(k, k + 11)[0] == url[k]);
                assert(url[k] != 'g');
            }
        },
        None => {},
    }
    lemma_find(url, "github.com"@);
    assert(url.subrange(8, 18) =~= "github.com"@);
    assert(occurs_at(url, "github.com"@, 8));
}

proof fn no_marker_in_path(o: Seq<char>, r: Seq<char>)
    requires
        !o.contains('/') && !ends_with(o, "github.com"@),
        !r.contains('/'),
    ensures
        find(o + seq!['/'] + r, "github.com/"@) is None,
{
    reveal_strlit("github.com/");
    reveal_strlit("github.com");
    let x = o + seq!['/'] + r;
    let m = "github.com/"@;
    lemma_find(x, m);
    match find(x, m) {
        Some(j) => {
            assert(x.subrange(j, j + 11)[10] == m[10]);
            assert(x[j + 10] == '/');
            if j + 10 < o.len() {
                assert(x[j + 10] == o[j + 10]);
            } else if j + 10 > o.len() {
                assert(x[j + 10] == r[j + 10 - o.len() - 1]);
            } else {
                assert forall|k: int| 0 <= k < 10 implies o.subrange(j, o.len() as int)[k]
                    == ("github.com"@)[k] by {
                    assert(x.subrange(j, j + 11)[k] == m[k]);
                    assert(x[j + k] == o[j + k]);
                }
                assert(o.subrange(o.len() - 10, o.len() as int) =~= "github.com"@);
            }
        },
        None => {},
    }
}

/// An HTTPS remote address `https://github.com/<owner>/<name>` names that
/// owner and repository, with or without a `.git` ending (for names
/// without `/`, an owner that does not itself end in `github.com`, and a
/// repository that does not itself end in `.git`).
pub proof fn https_remote_round_trip(owner: Seq<char>, name: Seq<char>)
    requires
        !owner.contains('/') && !ends_with(owner, "github.com"@),
        !name.contains('/'),
        !ends_with(name, ".git"@),
    ensures
        repo_of_remote("https://github.com/"@ + owner + "/"@ + name) == Some((owner, name)),
        repo_of_remote("https://github.com/"@ + owner + "/"@ + name + ".git"@) == Some((owner, name)),
{
    reveal_strlit("https://github.com/");
    reveal_strlit("git@github.com:");
    reveal_strlit("github.com/");
    reveal_strlit("/");
    reveal_strlit(".git");
    assert("/"@ =~= seq!['/']);
    let x = owner + seq!['/'] + name;
    path_not_git(owner, name);
    strip_git_once(x);
    split_owner_repo(owner, name);
    // without the `.git` ending
    let url1 = "https://github.com/"@ + owner + "/"@ + name;
    assert(url1 =~= "https://github.com/"@ + x);
    github_marker_first(x);
    assert(!starts_with(url1, "git@github.com:"@)) by {
        assert(url1[0] == 'h');
        if starts_with(url1, "git@github.com:"@) {
            assert(url1.subrange(0, 15)[0] == ("git@github.com:"@)[0]);
        }
    }
    assert(url1.subrange(19, url1.len() as int) =~= x);
    no_marker_in_path(owner, name);
    assert(after(url1, "github.com/"@) == Some(x));
    assert(second_piece(url1, "github.com/"@) == Some(x));
    // with the `.git` ending
    let y = x + ".git"@;
    let url2 = "https://github.com/"@ + owner + "/"@ + name + ".git"@;
    assert(url2 =~= "https://github.com/"@ + y);
    github_marker_first(y);
    assert(!starts_with(url2, "git@github.com:"@)) by {
        assert(url2[0] == 'h');
        if starts_with(url2, "git@github.com:"@) {
            assert(url2.subrange(0, 15)[0] == ("git@github.com:"@)[0]);
        }
    }
    assert(url2.subrange(19, url2.len() as int) =~= y);
    assert(!(name + ".git"@).contains('/')) by {
        if (name + ".git"@).contains('/') {
            let k = choose|k: int| 0 <= k < (name + ".git"@).len() && (name + ".git"@)[k] == '/';
            if k < name.len() {
                assert(name[k] == '/');
            }
        }
    }
    assert(y =~= owner + seq!['/'] + (name + ".git"@));
    no_marker_in_path(owner, name + ".git"@);
    assert(after(url2, "github.com/"@) == Some(y));
    assert(second_piece(url2, "github.com/"@) == Some(y));
}


/// An editor line `<code> <id> <text>` turns back into an entry of the type
/// that the code names, with the text: what the review lists is what it adds
/// (for a code and an id without spaces, a code that starts with neither
/// whitespace nor `#`, and a text that does not end in whitespace).
pub proof fn review_line_round_trip(code: Seq<char>, id: Seq<char>, text: Seq<char>)
    requires
        code.len() > 0,
        !is_ws(code[0]),
        code[0] != '#',
        !code.contains(' '),
        !id.contains(' '),
        text.len() > 0,
        !is_ws(text.last()),
    ensures
        review_entry(code + " "@ + id + " "@ + text) == Some((type_for_code(code), text)),
{
    reveal_strlit(" ");
    reveal_strlit("#");
    assert(" "@ =~= seq![' ']);
    let tail = id + seq![' '] + text;
    let line = code + " "@ + id + " "@ + text;
    assert(line =~= code + seq![' '] + tail);
    assert(line.last() == text.last());
    assert(trim_end(line) == line);
    assert(line[0] == code[0]);
    assert(trim_start(line) == line);
    assert(trim(line) == line);
    if starts_with(line, "#"@) {
        assert(line.subrange(0, 1)[0] == ("#"@)[0]);
    }
    find_single(code, ' ', tail);
    assert(line.subrange(code.len() + 1int, line.len() as int) =~= tail);
    assert(line.subrange(0, code.len() as int) =~= code);
    find_single(id, ' ', text);
    assert(tail.subrange(id.len() + 1int, tail.len() as int) =~= text);
}


// ---------------------------------------------------------------------
// The header survives every rewrite
// ---------------------------------------------------------------------

/// Adding an entry keeps the header of the changelog text: the new text
/// starts with everything before the first level-two heading of the old one
/// (for a header without `\r\n` line endings).
pub proof fn add_keeps_header(
    c: Seq<char>,
    desc: Seq<char>,
    t: ChangeType,
    version: Option<Seq<char>>,
    github: Option<(Seq<char>, Seq<char>)>,
)
    requires
        !contains(header_of(c), "\r\n"@),
    ensures
        add_outcome(Some(c), desc, t, version, github) matches Ok(s) ==> starts_with(
            s,
            header_of(c) + "\n"@,
        ),
{
    match parsed_changelog(c) {
        Ok(rs) => match with_entry(rs, key_or_unreleased(version), t, desc) {
            Some(rs2) => header_is_kept(rs2, c, github),
            None => {},
        },
        Err(_) => {},
    }
}

/// Formatting keeps the header of the changelog text (for a header without
/// `\r\n` line endings).
pub proof fn fmt_keeps_header(c: Seq<char>, github: Option<(Seq<char>, Seq<char>)>)
    requires
        !contains(header_of(c), "\r\n"@),
    ensures
        fmt_outcome(Some(c), github) matches Ok(s) ==> starts_with(s, header_of(c) + "\n"@),
{
    match parsed_changelog(c) {
        Ok(rs) => header_is_kept(rs, c, github),
        Err(_) => {},
    }
}

proof fn release_with_keeps_header(
    rs: Seq<ReleaseView>,
    c: Seq<char>,
    version: Seq<char>,
    date: Seq<char>,
    github: Option<(Seq<char>, Seq<char>)>,
)
    requires
        !contains(header_of(c), "\r\n"@),
    ensures
        release_with(rs, c, version, date, github) matches Ok(p) ==> starts_with(
            p.0,
            header_of(c) + "\n"@,
        ),
{
    match find_version(rs, "Unreleased"@) {
        Some(i) => match parsed_changelog(unreleased_template()) {
            Ok(ds) => match find_version(ds, "Unreleased"@) {
                Some(j) => header_is_kept(after_release(rs, i, ds[j], version, date), c, github),
                None => {},
            },
            Err(_) => {},
        },
        None => {},
    }
}

/// Releasing keeps the header of the changelog text: the new text starts
/// with everything before the first level-two heading of the old one (for a
/// header without `\r\n` line endings).
pub proof fn release_keeps_header(
    c: Seq<char>,
    version_or_type: Seq<char>,
    date: Seq<char>,
    github: Option<(Seq<char>, Seq<char>)>,
)
    requires
        !contains(header_of(c), "\r\n"@),
    ensures
        release_outcome(Some(c), version_or_type, date, github) matches Ok(p) ==> starts_with(
            p.0,
            header_of(c) + "\n"@,
        ),
{
    match parsed_changelog(c) {
        Ok(rs) => {
            if is_bump(version_or_type) {
                match latest_word(rs) {
                    Some(l) => match next_version_outcome(l, version_or_type) {
                        Ok(v) => release_with_keeps_header(rs, c, v, date, github),
                        Err(_) => {},
                    },
                    None => {},
                }
            } else {
                release_with_keeps_header(rs, c, version_or_type, date, github);
            }
        },
        Err(_) => {},
    }
}

// ---------------------------------------------------------------------
// Version link definitions
// ---------------------------------------------------------------------

/// The versions that get link definitions: the first word, without
/// brackets, of each rendered release's heading, in order.
pub open spec fn link_versions(rs: Seq<ReleaseView>) -> Seq<Seq<char>> {
    render_all(rs, seq![], false).1
}

proof fn links_ignore_output(rs: Seq<ReleaseView>, s1: Seq<char>, g1: bool, s2: Seq<char>, g2: bool)
    ensures
        render_all(rs, s1, g1).1 == render_all(rs, s2, g2).1,
    decreases rs.len(),
{
    if rs.len() > 0 {
        links_ignore_output(rs.drop_last(), s1, g1, s2, g2);
    }
}

proof fn definition_line_present(links: Seq<Seq<char>>, base: Seq<char>, i: int, n: int)
    requires
        0 <= i < n,
    ensures
        occurs_at(
            link_definitions(links, base, n),
            "["@ + links[i] + "]: "@ + link_target(links, i, base) + "\n"@,
            link_definitions(links, base, i).len() as int,
        ),
    decreases n,
{
    let line = "["@ + links[i] + "]: "@ + link_target(links, i, base) + "\n"@;
    let p = link_definitions(links, base, i).len() as int;
    if n == i + 1 {
        let d = link_definitions(links, base, n);
        assert(d =~= link_definitions(links, base, i) + line);
        assert(d.subrange(p, p + line.len()) =~= line);
    } else {
        definition_line_present(links, base, i, n - 1);
        let prev = link_definitions(links, base, n - 1);
        let d = link_definitions(links, base, n);
        let tail = d.subrange(prev.len() as int, d.len() as int);
        assert(d =~= prev + tail);
        assert(d.subrange(p, p + line.len()) =~= prev.subrange(p, p + line.len()));
    }
}

proof fn occurs_in_concat(a: Seq<char>, b: Seq<char>, line: Seq<char>, p: int)
    ensures
        occurs_at(b, line, p) ==> occurs_at(a + b, line, a.len() + p),
        occurs_at(a, line, p) ==> occurs_at(a + b, line, p),
{
    if occurs_at(b, line, p) {
        assert((a + b).subrange(a.len() + p, a.len() + p + line.len()) =~= b.subrange(
            p,
            p + line.len(),
        ));
    }
    if occurs_at(a, line, p) {
        assert((a + b).subrange(p, p + line.len()) =~= a.subrange(p, p + line.len()));
    }
}

proof fn occurs_contains(s: Seq<char>, line: Seq<char>, p: int)
    requires
        occurs_at(s, line, p),
    ensures
        contains(s, line),
{
    lemma_find(s, line);
}

/// With the repository known, every version gets its link definition line:
/// a version with an older one after it compares the older tag with its own
/// tag (the unreleased section compares the newest tag with `HEAD`), and the
/// oldest version links to its release tag.
pub proof fn version_links_compare_older_first(
    rs: Seq<ReleaseView>,
    original: Seq<char>,
    owner: Seq<char>,
    repo: Seq<char>,
    i: int,
)
    requires
        0 <= i < link_versions(rs).len(),
    ensures
        ({
            let l = link_versions(rs);
            let m = markdown(rs, original, Some((owner, repo)));
            let base = "https://github.com/"@ + owner + "/"@ + repo;
            &&& i + 1 < l.len() && l[i] != "Unreleased"@ ==> contains(
                m,
                "["@ + l[i] + "]: "@ + base + "/compare/v"@ + l[i + 1] + "...v"@ + l[i] + "\n"@,
            )
            &&& i + 1 < l.len() && l[i] == "Unreleased"@ ==> contains(
                m,
                "["@ + l[i] + "]: "@ + base + "/compare/v"@ + l[i + 1] + "...HEAD"@ + "\n"@,
            )
            &&& i + 1 == l.len() ==> contains(
                m,
                "["@ + l[i] + "]: "@ + base + "/releases/tag/v"@ + l[i] + "\n"@,
            )
        }),
{
    let l = link_versions(rs);
    let github = Some((owner, repo));
    let start = trim_end(header_of(original)) + "\n\n"@;
    let rendered = render_all(rs, start, true);
    links_ignore_output(rs, start, true, seq![], false);
    assert(rendered.1 == l);
    let base = repo_base(owner, repo);
    let n = l.len() as int;
    let body = join(drop_link_tail(lines(rendered.0)), "\n"@);
    let sep = if ends_with(body, "\n"@) {
        "\n"@
    } else {
        "\n\n"@
    };
    let defs = link_definitions(l, base, n);
    let linked = body + sep + defs;
    let m = markdown(rs, original, github);
    assert(m == newline_terminated(linked));
    let line = "["@ + l[i] + "]: "@ + link_target(l, i, base) + "\n"@;
    let p = link_definitions(l, base, i).len() as int;
    definition_line_present(l, base, i, n);
    occurs_in_concat(body + sep, defs, line, p);
    let q = (body + sep).len() + p;
    assert(occurs_at(linked, line, q));
    if !ends_with(linked, "\n"@) {
        occurs_in_concat(linked, "\n"@, line, q);
    }
    assert(occurs_at(m, line, q));
    occurs_contains(m, line, q);
    if i + 1 < l.len() && l[i] != "Unreleased"@ {
        assert(line =~= "["@ + l[i] + "]: "@ + ("https://github.com/"@ + owner + "/"@ + repo)
            + "/compare/v"@ + l[i + 1] + "...v"@ + l[i] + "\n"@);
    }
    if i + 1 < l.len() && l[i] == "Unreleased"@ {
        assert(line =~= "["@ + l[i] + "]: "@ + ("https://github.com/"@ + owner + "/"@ + repo)
            + "/compare/v"@ + l[i + 1] + "...HEAD"@ + "\n"@);
    }
    if i + 1 == l.len() {
        assert(line =~= "["@ + l[i] + "]: "@ + ("https://github.com/"@ + owner + "/"@ + repo)
            + "/releases/tag/v"@ + l[i] + "\n"@);
    }
}

// ---------------------------------------------------------------------
// Editor lines of commits
// ---------------------------------------------------------------------

/// The editor line of a commit names its change type by the commit's
/// conventional type: `feat` is `added`, `fix` is `fixed`, any other type is
/// `changed`, each with the commit's description; a commit that is not
/// conventional is `changed`, with its whole message.
pub proof fn editor_line_by_commit_type(id: Seq<char>, m: Seq<char>)
    ensures
        match conventional_commit(m) {
            Some(p) => if p.0 == "feat"@ {
                editor_line(id, m) == "added"@ + " "@ + id + " "@ + p.1 + "\n"@
            } else if p.0 == "fix"@ {
                editor_line(id, m) == "fixed"@ + " "@ + id + " "@ + p.1 + "\n"@
            } else {
                editor_line(id, m) == "changed"@ + " "@ + id + " "@ + p.1 + "\n"@
            },
            None => editor_line(id, m) == "changed"@ + " "@ + id + " "@ + m + "\n"@,
        },
{
}

// ---------------------------------------------------------------------
// Revision ranges
// ---------------------------------------------------------------------

proof fn index_from_first(l: Seq<Seq<char>>, v: Seq<char>, i: int, j: int)
    requires
        0 <= i <= j < l.len(),
        l[j] == v,
        forall|k: int| i <= k < j ==> l[k] != v,
    ensures
        index_from(l, v, i) == Some(j),
    decreases j - i,
{
    if i < j {
        index_from_first(l, v, i + 1, j);
    }
}

/// The revision range of a released version starts at the tag of the
/// released version right after it in the changelog (the next older one) and
/// ends at its own tag; without a version it runs from the newest release's
/// tag to `HEAD`.
pub proof fn range_starts_at_next_older(c: Seq<char>, v: Seq<char>, j: int)
    ensures
        match parsed_changelog(c) {
            Ok(rs) => {
                &&& !starts_with(v, "v"@) && 0 <= j && j + 1 < released_versions(rs).len()
                    && released_versions(rs)[j] == v && (forall|k: int|
                    0 <= k < j ==> released_versions(rs)[k] != v) ==> range_outcome(Some(c), Some(v))
                    == Ok::<_, Failure>("v"@ + released_versions(rs)[j + 1] + ".."@ + "v"@ + v)
                &&& released_versions(rs).len() > 0 ==> range_outcome(Some(c), None)
                    == Ok::<_, Failure>("v"@ + released_versions(rs)[0] + ".."@ + "HEAD"@)
            },
            Err(_) => true,
        },
{
    match parsed_changelog(c) {
        Ok(rs) => {
            let l = released_versions(rs);
            if !starts_with(v, "v"@) && 0 <= j && j + 1 < l.len() && l[j] == v && (forall|k: int|
                0 <= k < j ==> l[k] != v) {
                index_from_first(l, v, 0, j);
                assert(("v"@ + l[j + 1]) + ".."@ + ("v"@ + v) =~= "v"@ + l[j + 1] + ".."@ + "v"@ + v);
                assert(range_outcome(Some(c), Some(v)) == Ok::<_, Failure>(
                    ("v"@ + l[j + 1]) + ".."@ + ("v"@ + v),
                ));
            }
            if l.len() > 0 {
                assert(range_outcome(Some(c), None) == Ok::<_, Failure>(
                    ("v"@ + l[0]) + ".."@ + "HEAD"@,
                ));
            }
        },
        Err(_) => {},
    }
}


/// A version given with a leading `v` is refused, whatever the changelog.
pub proof fn range_refuses_v_prefix(content: Option<Seq<char>>, v: Seq<char>)
    ensures
        starts_with(v, "v"@) ==> range_outcome(content, Some(v)) == Err::<Seq<char>, _>(
            Failure::VersionHasPrefix,
        ),
{
}

// ---------------------------------------------------------------------
// Preselection
// ---------------------------------------------------------------------

/// A commit is selected beforehand exactly when its editor line files it
/// as `added` or `fixed`.
pub proof fn preselected_iff_added_or_fixed(m: Seq<char>)
    ensures
        preselected_spec(m) <==> (suggested(m).0 == "added"@ || suggested(m).0 == "fixed"@),
{
    reveal_strlit("added");
    reveal_strlit("fixed");
    reveal_strlit("changed");
    assert("changed"@.len() != "added"@.len());
}

// ---------------------------------------------------------------------
// The newest release
// ---------------------------------------------------------------------

proof fn released_versions_concat(a: Seq<ReleaseView>, b: Seq<ReleaseView>)
    ensures
        released_versions(a + b) == released_versions(a) + released_versions(b),
    decreases b.len(),
{
    if b.len() == 0 {
        assert(a + b =~= a);
        assert(released_versions(a) + Seq::<Seq<char>>::empty() =~= released_versions(a));
    } else {
        assert((a + b).drop_last() =~= a + b.drop_last());
        assert((a + b).last() == b.last());
        released_versions_concat(a, b.drop_last());
        if b.last().0 != "Unreleased"@ {
            assert(released_versions(a) + released_versions(b.drop_last()).push(b.last().0)
                =~= (released_versions(a) + released_versions(b.drop_last())).push(b.last().0));
        }
    }
}

proof fn released_versions_none(a: Seq<ReleaseView>)
    requires
        forall|k: int| 0 <= k < a.len() ==> a[k].0 == "Unreleased"@,
    ensures
        released_versions(a).len() == 0,
    decreases a.len(),
{
    if a.len() > 0 {
        released_versions_none(a.drop_last());
    }
}

proof fn first_released(rs: Seq<ReleaseView>, i: int)
    requires
        0 <= i < rs.len(),
        rs[i].0 != "Unreleased"@,
        forall|k: int| 0 <= k < i ==> rs[k].0 == "Unreleased"@,
    ensures
        released_versions(rs).len() > 0,
        released_versions(rs)[0] == rs[i].0,
{
    let a = rs.take(i);
    let b = rs.skip(i);
    assert(rs =~= a + b);
    released_versions_concat(a, b);
    released_versions_none(a);
    let b1 = seq![rs[i]];
    let b2 = rs.skip(i + 1);
    assert(b =~= b1 + b2);
    released_versions_concat(b1, b2);
    assert(b1.drop_last() =~= Seq::<ReleaseView>::empty());
    assert(b1.last() == rs[i]);
    released_versions_none(b1.drop_last());
    assert(released_versions(b1) =~= seq![rs[i].0]);
}

proof fn find_version_first(rs: Seq<ReleaseView>, key: Seq<char>, i: int, j: int)
    requires
        0 <= i <= j < rs.len(),
        rs[j].0 == key,
        forall|k: int| i <= k < j ==> rs[k].0 != key,
    ensures
        find_version_from(rs, key, i) == Some(j),
    decreases j - i,
{
    if i < j {
        find_version_first(rs, key, i + 1, j);
    }
}

/// The newest released version is the first release of the text that is not
/// the unreleased section; `version latest` gives it up to its first
/// whitespace, `version list` gives it first, and `entry latest` shows that
/// release. With only an unreleased section there is no latest version.
pub proof fn latest_is_first_release_in_file(c: Seq<char>, i: int)
    ensures
        match parsed_changelog(c) {
            Ok(rs) => {
                &&& 0 <= i < rs.len() && rs[i].0 != "Unreleased"@ && (forall|k: int|
                    0 <= k < i ==> rs[k].0 == "Unreleased"@) ==> {
                    &&& latest_outcome(Some(c)) == Ok::<_, Failure>(bare_version(rs[i].0))
                    &&& list_outcome(Some(c)) matches Ok(l) && l.len() > 0 && l[0] == bare_version(
                        rs[i].0,
                    )
                    &&& show_outcome(Some(c), "latest"@) == Ok::<_, Failure>(
                        "## "@ + rs[i].1 + "\n\n"@ + trim(rs[i].2) + "\n"@,
                    )
                }
                &&& (forall|k: int| 0 <= k < rs.len() ==> rs[k].0 == "Unreleased"@) ==> latest_outcome(
                    Some(c),
                ) == Err::<Seq<char>, _>(Failure::NoReleasedVersions)
            },
            Err(e) => latest_outcome(Some(c)) == Err::<Seq<char>, _>(Failure::Unparsable(e)),
        },
{
    reveal_strlit("latest");
    match parsed_changelog(c) {
        Ok(rs) => {
            if 0 <= i < rs.len() && rs[i].0 != "Unreleased"@ && (forall|k: int|
                0 <= k < i ==> rs[k].0 == "Unreleased"@) {
                first_released(rs, i);
                assert(eq_ignore_ascii_case("latest"@, "latest"@));
                find_version_first(rs, rs[i].0, 0, i);
            }
            if forall|k: int| 0 <= k < rs.len() ==> rs[k].0 == "Unreleased"@ {
                released_versions_none(rs);
            }
        },
        Err(_) => {},
    }
}

/// `entry` of a version shows the heading of the first release with that
/// version, a blank line and its notes without surrounding whitespace;
/// `entry unreleased` shows the unreleased section the same way.
pub proof fn entry_shows_its_release(c: Seq<char>, v: Seq<char>, i: int)
    ensures
        match parsed_changelog(c) {
            Ok(rs) => {
                &&& 0 <= i < rs.len() && rs[i].0 == v && (forall|k: int| 0 <= k < i ==> rs[k].0 != v)
                    && !eq_ignore_ascii_case(v, "latest"@) && !eq_ignore_ascii_case(v, "unreleased"@)
                    ==> show_outcome(Some(c), v) == Ok::<_, Failure>(
                    "## "@ + rs[i].1 + "\n\n"@ + trim(rs[i].2) + "\n"@,
                )
                &&& 0 <= i < rs.len() && rs[i].0 == "Unreleased"@ && (forall|k: int|
                    0 <= k < i ==> rs[k].0 != "Unreleased"@) ==> show_outcome(Some(c), "unreleased"@)
                    == Ok::<_, Failure>("## "@ + rs[i].1 + "\n\n"@ + trim(rs[i].2) + "\n"@)
            },
            Err(e) => show_outcome(Some(c), v) == Err::<Seq<char>, _>(Failure::Unparsable(e)),
        },
{
    reveal_strlit("latest");
    reveal_strlit("unreleased");
    match parsed_changelog(c) {
        Ok(rs) => {
            if 0 <= i < rs.len() && rs[i].0 == v && (forall|k: int| 0 <= k < i ==> rs[k].0 != v) {
                find_version_first(rs, v, 0, i);
            }
            if 0 <= i < rs.len() && rs[i].0 == "Unreleased"@ && (forall|k: int|
                0 <= k < i ==> rs[k].0 != "Unreleased"@) {
                find_version_first(rs, "Unreleased"@, 0, i);
                assert(!eq_ignore_ascii_case("unreleased"@, "latest"@));
                assert(eq_ignore_ascii_case("unreleased"@, "unreleased"@));
            }
        },
        Err(_) => {},
    }
}

// ---------------------------------------------------------------------
// Bumps
// ---------------------------------------------------------------------

/// A major bump raises the major number and resets the other two; a minor
/// bump keeps the major number, raises the minor one and resets the patch;
/// a patch bump raises only the patch number.
pub proof fn bumps_reset_lower_numbers(major: u64, minor: u64, patch: u64)
    ensures
        major < u64::MAX ==> bump_outcome((major, minor, patch), "major"@) == Ok::<_, Failure>(
            decimal((major + 1) as nat) + "."@ + decimal(0) + "."@ + decimal(0),
        ),
        minor < u64::MAX ==> bump_outcome((major, minor, patch), "minor"@) == Ok::<_, Failure>(
            decimal(major as nat) + "."@ + decimal((minor + 1) as nat) + "."@ + decimal(0),
        ),
        patch < u64::MAX ==> bump_outcome((major, minor, patch), "patch"@) == Ok::<_, Failure>(
            decimal(major as nat) + "."@ + decimal(minor as nat) + "."@ + decimal((patch + 1) as nat),
        ),
{
    reveal_strlit("major");
    reveal_strlit("minor");
    reveal_strlit("patch");
    assert(eq_ignore_ascii_case("major"@, "major"@));
    assert(eq_ignore_ascii_case("minor"@, "minor"@));
    assert(eq_ignore_ascii_case("patch"@, "patch"@));
    assert(!eq_ignore_ascii_case("minor"@, "major"@)) by {
        assert("minor"@[1] != "major"@[1]);
    }
    assert(!eq_ignore_ascii_case("patch"@, "major"@)) by {
        assert("patch"@[0] != "major"@[0]);
    }
    assert(!eq_ignore_ascii_case("patch"@, "minor"@)) by {
        assert("patch"@[0] != "minor"@[0]);
    }
}

/// Releasing reports the version it released: the given version, or for a
/// bump the version after the newest release's first word.
pub proof fn release_reports_its_version(
    c: Seq<char>,
    v: Seq<char>,
    date: Seq<char>,
    github: Option<(Seq<char>, Seq<char>)>,
)
    ensures
        release_outcome(Some(c), v, date, github) matches Ok(p) ==> if is_bump(v) {
            parsed_changelog(c) matches Ok(rs) && latest_word(rs) matches Some(l)
                && next_version_outcome(l, v) == Ok::<_, Failure>(p.1)
        } else {
            p.1 == v
        },
{
    match parsed_changelog(c) {
        Ok(rs) => {
            if is_bump(v) {
                match latest_word(rs) {
                    Some(l) => match next_version_outcome(l, v) {
                        Ok(nv) => {
                            release_with_version(rs, c, nv, date, github);
                        },
                        Err(_) => {},
                    },
                    None => {},
                }
            } else {
                release_with_version(rs, c, v, date, github);
            }
        },
        Err(_) => {},
    }
}

proof fn release_with_version(
    rs: Seq<ReleaseView>,
    c: Seq<char>,
    version: Seq<char>,
    date: Seq<char>,
    github: Option<(Seq<char>, Seq<char>)>,
)
    ensures
        release_with(rs, c, version, date, github) matches Ok(p) ==> p.1 == version,
{
}


// ---------------------------------------------------------------------
// Credits
// ---------------------------------------------------------------------

proof fn split_without_separator(s: Seq<char>)
    requires
        !s.contains(','),
    ensures
        split_on(s, ',') == seq![s],
    decreases s.len(),
{
    if s.len() > 0 {
        assert(s.drop_last().len() < s.len());
        assert(!s.drop_last().contains(',')) by {
            if s.drop_last().contains(',') {
                let k = choose|k: int| 0 <= k < s.drop_last().len() && s.drop_last()[k] == ',';
                assert(s[k] == ',');
            }
        }
        split_without_separator(s.drop_last());
        assert(s.last() != ',') by {
            if s.last() == ',' {
                assert(s[s.len() - 1] == ',');
            }
        }
        assert(s.drop_last().push(s.last()) =~= s);
        assert(seq![s.drop_last()].update(0, s.drop_last().push(s.last())) =~= seq![s]);
    } else {
        assert(s =~= Seq::<char>::empty());
    }
}

/// An author named in the exclusion list gets no credit: the entry is the
/// description alone. Without an exclusion list every credit is given.
pub proof fn excluded_author_gets_no_credit(
    desc: Seq<char>,
    number: u64,
    url: Seq<char>,
    author: Seq<char>,
    others: Seq<char>,
)
    requires
        !author.contains(','),
        trim(author) == author,
    ensures
        credited(desc, allowed_credit(Some((number, url, author)), Some(author))) == desc,
        credited(desc, allowed_credit(Some((number, url, author)), Some(others + ","@ + author)))
            == desc,
        allowed_credit(Some((number, url, author)), None) == Some((number, url, author)),
{
    reveal_strlit(",");
    split_without_separator(author);
    assert(trim(split_on(author, ',')[0]) == author);
    crate::changelog::excluded_unfold(author, author);
    assert(is_excluded(author, Some(author)));
    let list = others + ","@ + author;
    assert(list.drop_last().len() < list.len());
    split_tail(others, author);
    let p = split_on(list, ',');
    assert(p[p.len() - 1] == author);
    assert(trim(p[p.len() - 1]) == author);
    crate::changelog::excluded_unfold(author, list);
    assert(is_excluded(author, Some(list)));
}

proof fn split_tail(front: Seq<char>, last: Seq<char>)
    requires
        !last.contains(','),
    ensures
        split_on(front + ","@ + last, ',').len() > 0,
        split_on(front + ","@ + last, ',').last() == last,
    decreases last.len(),
{
    reveal_strlit(",");
    let s = front + ","@ + last;
    if last.len() == 0 {
        assert(s =~= front.push(','));
        assert(s.drop_last() =~= front);
        assert(s.last() == ',');
    } else {
        assert(s.drop_last() =~= front + ","@ + last.drop_last());
        assert(s.last() == last.last());
        assert(!last.drop_last().contains(',')) by {
            if last.drop_last().contains(',') {
                let k = choose|k: int| 0 <= k < last.drop_last().len() && last.drop_last()[k] == ',';
                assert(last[k] == ',');
            }
        }
        assert(last.last() != ',') by {
            if last.last() == ',' {
                assert(last[last.len() - 1] == ',');
            }
        }
        split_tail(front, last.drop_last());
        assert(last.drop_last().push(last.last()) =~= last);
    }
}

} // verus!
