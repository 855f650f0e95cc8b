//! Rendering a parsed changelog back to Markdown in the Keep a Changelog
//! layout.
use vstd::prelude::*;

use crate::model::{release_views, GithubRepo, Release};
use crate::text::{
    before, before_of, chars_of, chars_of_all, contains, contains_str, ends_with, find,
    find_first, first_word, first_word_of, has_prefix_str, has_suffix, is_blank, join, join_with,
    lemma_find, lines, occurs_at, second_piece, second_piece_of, slice, split_lines, starts_with,
    string_of, trim, trim_brackets, trim_brackets_of, trim_end, trim_end_of, trim_of, trim_start,
    trim_start_of, views, views_contain, without_brackets, without_brackets_of, append, append_str,
};

verus! {

broadcast use vstd::string::group_string_axioms;

// ---------------------------------------------------------------------
// Link definitions
// ---------------------------------------------------------------------

/// The label of a link definition line `[label]: target`.
pub open spec fn link_label(line: Seq<char>) -> Seq<char> {
    before(trim_start(line), "]"@).drop_first()
}

/// A line is kept unless it is a link definition whose label is one of `versions`.
pub open spec fn keeps_line(line: Seq<char>, versions: Seq<Seq<char>>) -> bool {
    let t = trim_start(line);
    !starts_with(t, "["@) || !contains(t, "]: "@) || !versions.contains(link_label(line))
}

/// The lines that `keeps_line` keeps, in order.
pub open spec fn kept_lines(ls: Seq<Seq<char>>, versions: Seq<Seq<char>>) -> Seq<Seq<char>>
    decreases ls.len(),
{
    if ls.len() == 0 {
        seq![]
    } else if keeps_line(ls.last(), versions) {
        kept_lines(ls.drop_last(), versions).push(ls.last())
    } else {
        kept_lines(ls.drop_last(), versions)
    }
}

/// `content` without the link definitions of `versions`, its lines joined by newlines.
pub open spec fn removed_links(content: Seq<char>, versions: Seq<Seq<char>>) -> Seq<char> {
    join(kept_lines(lines(content), versions), "\n"@)
}

fn keeps(line: &Vec<char>, versions: &Vec<Vec<char>>) -> (r: bool)
    ensures
        r == keeps_line(line@, views(versions@)),
{
    let t = trim_start_of(line);
    if !has_prefix_str(&t, "[") || !contains_str(&t, "]: ") {
        return true;
    }
    let close = chars_of("]");
    let head = before_of(&t, &close);
    proof {
        reveal_strlit("[");
        reveal_strlit("]");
        lemma_find(t@, close@);
        if head.len() == 0 {
            assert(occurs_at(t@, close@, 0));
            assert(t@.subrange(0, 1)[0] == close@[0]);
        }
    }
    let label = slice(&head, 1, head.len());
    assert(label@ =~= head@.drop_first());
    !views_contain(versions, &label)
}

fn remove_links(content: &Vec<char>, versions: &Vec<Vec<char>>) -> (r: Vec<char>)
    ensures
        r@ == removed_links(content@, views(versions@)),
{
    let ls = split_lines(content);
    let mut kept: Vec<Vec<char>> = Vec::new();
    let mut i: usize = 0;
    while i < ls.len()
        invariant
            i <= ls.len(),
            views(ls@) == lines(content@),
            views(kept@) == kept_lines(views(ls@).take(i as int), views(versions@)),
        decreases ls.len() - i,
    {
        let ghost vs = views(ls@);
        assert(vs.take(i + 1).drop_last() =~= vs.take(i as int));
        assert(vs.take(i + 1).last() == ls@[i as int]@);
        if keeps(&ls[i], versions) {
            let ghost old_kept = kept@;
            kept.push(ls[i].clone());
            assert(views(kept@) =~= views(old_kept).push(ls@[i as int]@));
        }
        i = i + 1;
    }
    assert(views(ls@).take(ls.len() as int) =~= views(ls@));
    let sep = chars_of("\n");
    join_with(&kept, &sep)
}

/// Removes from `content` the link definition lines (`[label]: target`) whose
/// label is one of `versions`; the remaining lines are joined by newlines.
pub fn remove_markdown_links(content: &str, versions: &[String]) -> (r: String)
    ensures
        r@ == removed_links(content@, crate::text::strs(versions@)),
{
    let c = chars_of(content);
    let vs = chars_of_all(versions);
    let r = remove_links(&c, &vs);
    string_of(&r)
}

// ---------------------------------------------------------------------
// Header
// ---------------------------------------------------------------------

/// Everything before the first level-two heading, without trailing whitespace.
pub open spec fn header_of(original: Seq<char>) -> Seq<char> {
    match find(original, "\n## "@) {
        Some(i) => trim_end(original.subrange(0, i)),
        None => trim_end(original),
    }
}

fn header_chars(original: &Vec<char>) -> (r: Vec<char>)
    ensures
        r@ == header_of(original@),
{
    let marker = chars_of("\n## ");
    proof {
        lemma_find(original@, marker@);
    }
    match find_first(original, &marker) {
        Some(i) => {
            let h = slice(original, 0, i);
            trim_end_of(&h)
        },
        None => trim_end_of(original),
    }
}

/// The header of a changelog text: everything before the first level-two
/// heading (`\n## `), with trailing whitespace removed. It is always present.
pub fn extract_header(original: &str) -> (r: Option<String>)
    ensures
        r matches Some(h) && h@ == header_of(original@),
{
    let o = chars_of(original);
    let h = header_chars(&o);
    Some(string_of(&h))
}


// ---------------------------------------------------------------------
// The body of a release
// ---------------------------------------------------------------------

/// The first line at or after `i` that is a level-two heading.
pub open spec fn first_h2_from(ls: Seq<Seq<char>>, i: int) -> Option<int>
    decreases ls.len() - i,
{
    if i < 0 || i >= ls.len() {
        None
    } else if starts_with(trim(ls[i]), "## "@) {
        Some(i)
    } else {
        first_h2_from(ls, i + 1)
    }
}

/// `ls` with the blank lines at index `pos` removed, one after the other.
pub open spec fn drop_blanks_at(ls: Seq<Seq<char>>, pos: int) -> Seq<Seq<char>>
    decreases ls.len(),
{
    if 0 <= pos < ls.len() && trim(ls[pos]).len() == 0 {
        drop_blanks_at(ls.remove(pos), pos)
    } else {
        ls
    }
}

/// The lines of a release's notes as they are rendered: without the link
/// definitions of the versions seen so far, and without a stray level-two
/// heading and the blank lines after it.
pub open spec fn release_body(notes: Seq<char>, links: Seq<Seq<char>>) -> Seq<Seq<char>> {
    let ls = lines(removed_links(notes, links));
    match first_h2_from(ls, 0) {
        Some(p) => drop_blanks_at(ls.remove(p), p),
        None => ls,
    }
}

fn find_h2(ls: &Vec<Vec<char>>) -> (r: Option<usize>)
    ensures
        match r {
            Some(i) => i < ls.len() && first_h2_from(views(ls@), 0) == Some(i as int),
            None => first_h2_from(views(ls@), 0) is None,
        },
{
    let ghost all = views(ls@);
    let mut i: usize = 0;
    while i < ls.len()
        invariant
            i <= ls.len(),
            all == views(ls@),
            first_h2_from(all, 0) == first_h2_from(all, i as int),
        decreases ls.len() - i,
    {
        let t = trim_of(&ls[i]);
        assert(all[i as int] == ls@[i as int]@);
        if has_prefix_str(&t, "## ") {
            return Some(i);
        }
        i = i + 1;
    }
    None
}

fn body_lines(notes: &Vec<char>, links: &Vec<Vec<char>>) -> (r: Vec<Vec<char>>)
    ensures
        views(r@) == release_body(notes@, views(links@)),
{
    let cleaned = remove_links(notes, links);
    let mut ls = split_lines(&cleaned);
    let ghost all = views(ls@);
    let mut i = match find_h2(&ls) {
        Some(i) => i,
        None => {
            return ls;
        },
    };
    ls.remove(i);
    assert(views(ls@) =~= all.remove(i as int));
    while i < ls.len() && is_blank(&ls[i])
        invariant
            drop_blanks_at(views(ls@), i as int) == release_body(notes@, views(links@)),
        decreases ls.len(),
    {
        let ghost prev = ls@;
        ls.remove(i);
        assert(views(ls@) =~= views(prev).remove(i as int));
    }
    ls
}

/// The view of an optional character vector.
pub open spec fn opt_view(o: Option<Vec<char>>) -> Option<Seq<char>> {
    match o {
        Some(v) => Some(v@),
        None => None,
    }
}

/// A level-three heading, which opens a section.
pub open spec fn is_h3(line: Seq<char>) -> bool {
    starts_with(trim(line), "### "@)
}

/// Some line is neither blank nor a heading or comment marker.
pub open spec fn has_content(ls: Seq<Seq<char>>) -> bool {
    exists|i: int| 0 <= i < ls.len() && trim(#[trigger] ls[i]).len() > 0 && !starts_with(trim(ls[i]), "#"@)
}

/// The lines that a finished section contributes: its heading and its lines
/// when it has content, nothing otherwise.
pub open spec fn flushed(header: Option<Seq<char>>, cur: Seq<Seq<char>>) -> Seq<Seq<char>> {
    match header {
        Some(h) => if has_content(cur) {
            seq![h] + cur
        } else {
            seq![]
        },
        None => seq![],
    }
}

/// The sections of `ls` that have content, with their headings, given the
/// section being read (`header`, with the lines `cur` read so far). Lines
/// before the first section are dropped.
pub open spec fn sections_after(
    ls: Seq<Seq<char>>,
    header: Option<Seq<char>>,
    cur: Seq<Seq<char>>,
) -> Seq<Seq<char>>
    decreases ls.len(),
{
    if ls.len() == 0 {
        flushed(header, cur)
    } else if is_h3(ls[0]) {
        flushed(header, cur) + sections_after(ls.drop_first(), Some(ls[0]), seq![])
    } else {
        sections_after(ls.drop_first(), header, cur.push(ls[0]))
    }
}

/// The sections of `ls` that have content.
pub open spec fn sections(ls: Seq<Seq<char>>) -> Seq<Seq<char>> {
    sections_after(ls, None, seq![])
}

fn content_exists(ls: &Vec<Vec<char>>) -> (r: bool)
    ensures
        r == has_content(views(ls@)),
{
    let mut i: usize = 0;
    while i < ls.len()
        invariant
            i <= ls.len(),
            forall|j: int|
                0 <= j < i ==> !(trim(#[trigger] views(ls@)[j]).len() > 0 && !starts_with(
                    trim(views(ls@)[j]),
                    "#"@,
                )),
        decreases ls.len() - i,
    {
        let t = trim_of(&ls[i]);
        assert(views(ls@)[i as int] == ls@[i as int]@);
        if t.len() > 0 && !has_prefix_str(&t, "#") {
            return true;
        }
        i = i + 1;
    }
    false
}

fn flush(out: &mut Vec<Vec<char>>, header: &Option<Vec<char>>, cur: &Vec<Vec<char>>)
    ensures
        views(final(out)@) == views(old(out)@) + flushed(
            opt_view(*header),
            views(cur@),
        ),
{
    match header {
        Some(h) => {
            if content_exists(cur) {
                let ghost start = views(out@);
                out.push(h.clone());
                let mut i: usize = 0;
                while i < cur.len()
                    invariant
                        i <= cur.len(),
                        views(out@) == start + seq![h@] + views(cur@).take(i as int),
                    decreases cur.len() - i,
                {
                    let ghost prev = out@;
                    out.push(cur[i].clone());
                    assert(views(out@) =~= views(prev).push(cur@[i as int]@));
                    assert(views(cur@).take(i + 1) =~= views(cur@).take(i as int).push(
                        cur@[i as int]@,
                    ));
                    i = i + 1;
                }
                assert(views(cur@).take(cur.len() as int) =~= views(cur@));
                assert(start + seq![h@] + views(cur@) =~= start + (seq![h@] + views(cur@)));
            } else {
                assert(views(out@) + Seq::<Seq<char>>::empty() =~= views(out@));
            }
        },
        None => {
            assert(views(out@) + Seq::<Seq<char>>::empty() =~= views(out@));
        },
    }
}

fn section_lines(ls: &Vec<Vec<char>>) -> (r: Vec<Vec<char>>)
    ensures
        views(r@) == sections(views(ls@)),
{
    let mut out: Vec<Vec<char>> = Vec::new();
    let mut header: Option<Vec<char>> = None;
    let mut cur: Vec<Vec<char>> = Vec::new();
    let mut i: usize = 0;
    assert(views(ls@).skip(0) =~= views(ls@));
    assert(views(cur@) =~= Seq::<Seq<char>>::empty());
    assert(views(out@) =~= Seq::<Seq<char>>::empty());
    while i < ls.len()
        invariant
            i <= ls.len(),
            sections(views(ls@)) == views(out@) + sections_after(
                views(ls@).skip(i as int),
                opt_view(header),
                views(cur@),
            ),
        decreases ls.len() - i,
    {
        let ghost rest = views(ls@).skip(i as int);
        assert(rest[0] == ls@[i as int]@);
        assert(rest.drop_first() =~= views(ls@).skip(i + 1));
        let t = trim_of(&ls[i]);
        if has_prefix_str(&t, "### ") {
            let ghost prev_out = views(out@);
            let ghost h = opt_view(header);
            let ghost c = views(cur@);
            flush(&mut out, &header, &cur);
            header = Some(ls[i].clone());
            cur = Vec::new();
            assert(views(cur@) =~= Seq::<Seq<char>>::empty());
            assert(prev_out + (flushed(h, c) + sections_after(rest.drop_first(), Some(ls@[i as int]@), seq![]))
                =~= views(out@) + sections_after(rest.drop_first(), Some(ls@[i as int]@), seq![]));
        } else {
            let ghost c = views(cur@);
            cur.push(ls[i].clone());
            assert(views(cur@) =~= c.push(ls@[i as int]@));
        }
        i = i + 1;
    }
    assert(views(ls@).skip(i as int) =~= Seq::<Seq<char>>::empty());
    flush(&mut out, &header, &cur);
    out
}


// ---------------------------------------------------------------------
// Titles and release blocks
// ---------------------------------------------------------------------

/// A release heading's text as it is rendered. With GitHub links the version
/// part (before ` - `) is kept in brackets, followed by the piece after the
/// first ` - `; without them every bracket is removed.
pub open spec fn rendered_title(title: Seq<char>, github: bool) -> Seq<char> {
    if github {
        let part = before(title, " - "@);
        let bracketed = if starts_with(part, "["@) {
            part
        } else {
            "["@ + part + "]"@
        };
        match second_piece(title, " - "@) {
            Some(date) => bracketed + " - "@ + date,
            None => bracketed,
        }
    } else {
        without_brackets(title)
    }
}

/// The text of the sections: their lines joined by newlines, ending in a
/// newline; nothing when there is no section.
pub open spec fn section_text(ls: Seq<Seq<char>>) -> Seq<char> {
    if ls.len() > 0 {
        join(ls, "\n"@) + "\n"@
    } else {
        seq![]
    }
}

/// The version a release contributes to the link definitions: the first word
/// of its title without brackets.
pub open spec fn link_version(title: Seq<char>) -> Option<Seq<char>> {
    match first_word(title) {
        Some(w) => Some(trim_brackets(w)),
        None => None,
    }
}

/// One step of rendering: the output and the versions seen so far, after the
/// release `r` = (version, title, notes). A release whose notes hold a
/// `# Changelog` heading is skipped.
pub open spec fn render_release(
    out: Seq<char>,
    links: Seq<Seq<char>>,
    r: (Seq<char>, Seq<char>, Seq<char>),
    github: bool,
) -> (Seq<char>, Seq<Seq<char>>) {
    if contains(r.2, "# Changelog"@) {
        (out, links)
    } else {
        let sep = if ends_with(out, "\n\n"@) {
            Seq::<char>::empty()
        } else {
            "\n"@
        };
        let out2 = out + sep + "## "@ + rendered_title(r.1, github) + "\n\n"@ + section_text(
            sections(release_body(r.2, links)),
        );
        let links2 = match link_version(r.1) {
            Some(v) => links.push(v),
            None => links,
        };
        (out2, links2)
    }
}

/// The output and the versions after rendering the releases `rs` in order,
/// starting from the text `start`.
pub open spec fn render_all(
    rs: Seq<(Seq<char>, Seq<char>, Seq<char>)>,
    start: Seq<char>,
    github: bool,
) -> (Seq<char>, Seq<Seq<char>>)
    decreases rs.len(),
{
    if rs.len() == 0 {
        (start, seq![])
    } else {
        let prev = render_all(rs.drop_last(), start, github);
        render_release(prev.0, prev.1, rs.last(), github)
    }
}

fn render_title(title: &Vec<char>, github: bool) -> (r: Vec<char>)
    ensures
        r@ == rendered_title(title@, github),
{
    if github {
        let dash = chars_of(" - ");
        let part = before_of(title, &dash);
        let mut bracketed: Vec<char>;
        if has_prefix_str(&part, "[") {
            bracketed = part;
        } else {
            bracketed = chars_of("[");
            append(&mut bracketed, &part);
            append_str(&mut bracketed, "]");
        }
        match second_piece_of(title, &dash) {
            Some(date) => {
                append(&mut bracketed, &dash);
                append(&mut bracketed, &date);
                bracketed
            },
            None => bracketed,
        }
    } else {
        without_brackets_of(title)
    }
}

fn render_one(out: &mut Vec<char>, links: &mut Vec<Vec<char>>, r: &Release, github: bool)
    ensures
        (final(out)@, views(final(links)@)) == render_release(
            old(out)@,
            views(old(links)@),
            r@,
            github,
        ),
{
    let notes = chars_of(r.notes.as_str());
    if contains_str(&notes, "# Changelog") {
        return;
    }
    let body = body_lines(&notes, links);
    let secs = section_lines(&body);
    let nn = chars_of("\n\n");
    if !has_suffix(out, &nn) {
        append_str(out, "\n");
    } else {
        assert(out@ + Seq::<char>::empty() =~= out@);
    }
    let title = chars_of(r.title.as_str());
    append_str(out, "## ");
    let rt = render_title(&title, github);
    append(out, &rt);
    append(out, &nn);
    if secs.len() > 0 {
        let nl = chars_of("\n");
        let joined = join_with(&secs, &nl);
        append(out, &joined);
        append(out, &nl);
    } else {
        assert(out@ + Seq::<char>::empty() =~= out@);
    }
    match first_word_of(&title) {
        Some(w) => {
            let ghost prev = links@;
            links.push(trim_brackets_of(&w));
            assert(views(links@) =~= views(prev).push(trim_brackets(w@)));
        },
        None => {},
    }
}

// ---------------------------------------------------------------------
// Version link definitions
// ---------------------------------------------------------------------

/// `ls` without its trailing lines that start with `[` (after whitespace).
pub open spec fn drop_link_tail(ls: Seq<Seq<char>>) -> Seq<Seq<char>>
    decreases ls.len(),
{
    if ls.len() > 0 && starts_with(trim(ls.last()), "["@) {
        drop_link_tail(ls.drop_last())
    } else {
        ls
    }
}

/// The address of a GitHub repository.
pub open spec fn repo_base(owner: Seq<char>, repo: Seq<char>) -> Seq<char> {
    "https://github.com/"@ + owner + "/"@ + repo
}

/// The target of the link definition of `links[i]`: the release tag for the
/// oldest version, otherwise the comparison with the next older version
/// (with `HEAD` for the unreleased section).
pub open spec fn link_target(links: Seq<Seq<char>>, i: int, base: Seq<char>) -> Seq<char> {
    if i + 1 >= links.len() {
        base + "/releases/tag/v"@ + links[i]
    } else if links[i] == "Unreleased"@ {
        base + "/compare/v"@ + links[i + 1] + "...HEAD"@
    } else {
        base + "/compare/v"@ + links[i + 1] + "...v"@ + links[i]
    }
}

/// The link definition lines of the first `n` versions.
pub open spec fn link_definitions(links: Seq<Seq<char>>, base: Seq<char>, n: int) -> Seq<char>
    decreases n,
{
    if n <= 0 {
        seq![]
    } else {
        link_definitions(links, base, n - 1) + "["@ + links[n - 1] + "]: "@ + link_target(
            links,
            n - 1,
            base,
        ) + "\n"@
    }
}

/// The view of an optional repository, as (owner, name).
pub open spec fn repo_view(g: Option<GithubRepo>) -> Option<(Seq<char>, Seq<char>)> {
    match g {
        Some(r) => Some((r.owner@, r.repo@)),
        None => None,
    }
}

/// The Markdown text of a changelog: the header of `original`, each release
/// (a `## ` heading and the sections that have content), and, when the
/// repository is known, a link definition for each version; it ends with a
/// newline.
pub open spec fn markdown(
    rs: Seq<(Seq<char>, Seq<char>, Seq<char>)>,
    original: Seq<char>,
    github: Option<(Seq<char>, Seq<char>)>,
) -> Seq<char> {
    let start = trim_end(header_of(original)) + "\n\n"@;
    let rendered = render_all(rs, start, github is Some);
    let body = join(drop_link_tail(lines(rendered.0)), "\n"@);
    let linked = match github {
        Some(g) => if rendered.1.len() > 0 {
            body + (if ends_with(body, "\n"@) {
                "\n"@
            } else {
                "\n\n"@
            }) + link_definitions(rendered.1, repo_base(g.0, g.1), rendered.1.len() as int)
        } else {
            body
        },
        None => body,
    };
    newline_terminated(linked)
}

/// `s`, with a newline added unless it ends with one.
pub open spec fn newline_terminated(s: Seq<char>) -> Seq<char> {
    if ends_with(s, "\n"@) {
        s
    } else {
        s + "\n"@
    }
}

fn link_target_of(links: &Vec<Vec<char>>, i: usize, base: &Vec<char>) -> (r: Vec<char>)
    requires
        i < links.len(),
    ensures
        r@ == link_target(views(links@), i as int, base@),
{
    let mut r = base.clone();
    assert(views(links@)[i as int] == links@[i as int]@);
    if i + 1 >= links.len() {
        append_str(&mut r, "/releases/tag/v");
        append(&mut r, &links[i]);
    } else {
        assert(views(links@)[i + 1] == links@[i + 1]@);
        let unreleased = chars_of("Unreleased");
        append_str(&mut r, "/compare/v");
        append(&mut r, &links[i + 1]);
        if crate::text::seq_eq(&links[i], &unreleased) {
            append_str(&mut r, "...HEAD");
        } else {
            append_str(&mut r, "...v");
            append(&mut r, &links[i]);
        }
    }
    r
}

fn append_link_definitions(out: &mut Vec<char>, links: &Vec<Vec<char>>, base: &Vec<char>)
    ensures
        final(out)@ == old(out)@ + link_definitions(views(links@), base@, links.len() as int),
{
    let mut i: usize = 0;
    while i < links.len()
        invariant
            i <= links.len(),
            out@ == old(out)@ + link_definitions(views(links@), base@, i as int),
        decreases links.len() - i,
    {
        let target = link_target_of(links, i, base);
        assert(views(links@)[i as int] == links@[i as int]@);
        append_str(out, "[");
        append(out, &links[i]);
        append_str(out, "]: ");
        append(out, &target);
        append_str(out, "\n");
        i = i + 1;
    }
}

fn drop_link_tail_of(ls: &mut Vec<Vec<char>>)
    ensures
        views(final(ls)@) == drop_link_tail(views(old(ls)@)),
{
    while ls.len() > 0 && has_prefix_str(&trim_of(&ls[ls.len() - 1]), "[")
        invariant
            drop_link_tail(views(ls@)) == drop_link_tail(views(old(ls)@)),
        decreases ls.len(),
    {
        let ghost prev = ls@;
        assert(views(prev).last() == prev[prev.len() - 1]@);
        ls.pop();
        assert(views(ls@) =~= views(prev).drop_last());
    }
}

/// Renders a changelog as Markdown: the header of `original` (everything
/// before the first level-two heading), then each release with its heading and
/// the sections that have entries, then, when the GitHub repository is known,
/// a link definition for each version. The unused range address is kept for
/// callers' sake.
pub fn changelog_to_markdown(
    changelog: &[Release],
    original: &str,
    _git_range_url: Option<&str>,
    github: &Option<GithubRepo>,
) -> (r: String)
    ensures
        r@ == markdown(release_views(changelog@), original@, repo_view(*github)),
{
    let o = chars_of(original);
    let header = header_chars(&o);
    let mut out = trim_end_of(&header);
    append_str(&mut out, "\n\n");
    let ghost start = out@;
    let has_github = github.is_some();
    let mut links: Vec<Vec<char>> = Vec::new();
    let ghost rs = release_views(changelog@);
    let mut i: usize = 0;
    assert(views(links@) =~= Seq::<Seq<char>>::empty());
    assert(rs.take(0) =~= Seq::<(Seq<char>, Seq<char>, Seq<char>)>::empty());
    while i < changelog.len()
        invariant
            i <= changelog.len(),
            rs == release_views(changelog@),
            has_github == (github is Some),
            (out@, views(links@)) == render_all(rs.take(i as int), start, has_github),
        decreases changelog.len() - i,
    {
        assert(rs.take(i + 1).drop_last() =~= rs.take(i as int));
        assert(rs.take(i + 1).last() == changelog@[i as int]@);
        render_one(&mut out, &mut links, &changelog[i], has_github);
        i = i + 1;
    }
    assert(rs.take(changelog.len() as int) =~= rs);
    let mut ls = split_lines(&out);
    drop_link_tail_of(&mut ls);
    let nl = chars_of("\n");
    let mut body = join_with(&ls, &nl);
    match github {
        Some(g) => {
            if links.len() > 0 {
                if has_suffix(&body, &nl) {
                    append_str(&mut body, "\n");
                } else {
                    append_str(&mut body, "\n\n");
                }
                let mut base = chars_of("https://github.com/");
                append_str(&mut base, g.owner.as_str());
                append_str(&mut base, "/");
                append_str(&mut base, g.repo.as_str());
                append_link_definitions(&mut body, &links, &base);
            }
        },
        None => {},
    }
    if !has_suffix(&body, &nl) {
        append(&mut body, &nl);
    }
    string_of(&body)
}

} // verus!
