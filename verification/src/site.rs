//! The project page generated from the README: its tagline, its body
//! rendered from Markdown, and the surrounding HTML page.
use vstd::prelude::*;
use vstd::string::StringExecFns;
use crate::text::{
    chars_of, chars_view, pieces, split_chars, str_replace, replace_all, string_from_chars, trim,
    trim_chars,
};
use crate::vpn::opt_text;

verus! {

/// `l` without one trailing carriage return.
pub open spec fn strip_cr(l: Seq<char>) -> Seq<char> {
    if l.len() > 0 && l.last() == '\r' {
        l.drop_last()
    } else {
        l
    }
}

/// The lines of `s` as `str::lines` yields them: split at each `\n`, a
/// `\r` right before the `\n` dropped, no empty line after a final `\n`.
pub open spec fn text_lines(s: Seq<char>) -> Seq<Seq<char>> {
    let p = pieces(s, '\n');
    let terminated = p.drop_last().map_values(|l: Seq<char>| strip_cr(l));
    if p.last().len() > 0 {
        terminated.push(p.last())
    } else {
        terminated
    }
}

fn lines_of(v: &Vec<char>) -> (r: Vec<Vec<char>>)
    ensures
        chars_view(r@) == text_lines(v@),
{
    let parts = split_chars(v, '\n');
    let n = parts.len();
    let mut out: Vec<Vec<char>> = Vec::new();
    let mut i: usize = 0;
    let ghost p = pieces(v@, '\n');
    while i + 1 < n
        invariant
            n == parts.len(),
            n >= 1,
            chars_view(parts@) == p,
            0 <= i <= n - 1,
            chars_view(out@) == p.drop_last().take(i as int).map_values(|l: Seq<char>| strip_cr(l)),
        decreases n - i,
    {
        let line = &parts[i];
        assert(line@ == p[i as int]);
        let mut l: Vec<char> = line.clone();
        assert(l@ == line@);
        if l.len() > 0 && l[l.len() - 1] == '\r' {
            l.pop();
        }
        assert(l@ == strip_cr(p[i as int]));
        let ghost before = chars_view(out@);
        let ghost lv = l@;
        out.push(l);
        assert(chars_view(out@) =~= before.push(lv));
        assert(p.drop_last().take(i + 1) == p.drop_last().take(i as int).push(p[i as int]));
        assert(p.drop_last().take(i + 1).map_values(|l: Seq<char>| strip_cr(l)) =~= p.drop_last().take(
            i as int,
        ).map_values(|l: Seq<char>| strip_cr(l)).push(strip_cr(p[i as int])));
        i = i + 1;
    }
    assert(p.drop_last().take(n - 1) == p.drop_last());
    let last = &parts[n - 1];
    assert(last@ == p.last());
    if last.len() > 0 {
        out.push(last.clone());
        assert(chars_view(out@) =~= text_lines(v@));
    }
    out
}

/// A line holding nothing but whitespace.
pub open spec fn blank(l: Seq<char>) -> bool {
    trim(l).len() == 0
}

/// Position of the first non-blank line, or the number of lines if every
/// line is blank.
pub open spec fn first_nonblank(ls: Seq<Seq<char>>) -> nat
    decreases ls.len(),
{
    if ls.len() == 0 || !blank(ls[0]) {
        0
    } else {
        1 + first_nonblank(ls.drop_first())
    }
}

/// The leading non-blank lines.
pub open spec fn leading_run(ls: Seq<Seq<char>>) -> Seq<Seq<char>>
    decreases ls.len(),
{
    if ls.len() == 0 || blank(ls[0]) {
        Seq::empty()
    } else {
        seq![ls[0]] + leading_run(ls.drop_first())
    }
}

/// `parts` joined with `sep` between consecutive parts.
pub open spec fn join(parts: Seq<Seq<char>>, sep: Seq<char>) -> Seq<char>
    decreases parts.len(),
{
    if parts.len() == 0 {
        Seq::empty()
    } else if parts.len() == 1 {
        parts[0]
    } else {
        join(parts.drop_last(), sep) + sep + parts.last()
    }
}

/// The first paragraph after the heading: skip to the first non-blank line
/// (the heading) and past it, skip blank lines, then take the lines up to
/// the next blank one, each trimmed, joined with single spaces.
pub open spec fn tagline_spec(readme: Seq<char>) -> Seq<char> {
    let ls = text_lines(readme);
    let h = first_nonblank(ls);
    let rest = if h < ls.len() {
        ls.skip((h + 1) as int)
    } else {
        Seq::empty()
    };
    let para = leading_run(rest.skip(first_nonblank(rest) as int));
    join(para.map_values(|l: Seq<char>| trim(l)), seq![' '])
}

fn is_blank(l: &Vec<char>) -> (r: bool)
    ensures
        r == blank(l@),
{
    trim_chars(l).len() == 0
}

proof fn lemma_first_nonblank_bound(ls: Seq<Seq<char>>)
    ensures
        first_nonblank(ls) <= ls.len(),
    decreases ls.len(),
{
    if ls.len() > 0 {
        lemma_first_nonblank_bound(ls.drop_first());
    }
}

fn first_nonblank_from(ls: &Vec<Vec<char>>, start: usize) -> (r: usize)
    requires
        start <= ls.len(),
    ensures
        r == start + first_nonblank(chars_view(ls@).skip(start as int)),
        r <= ls.len(),
{
    let mut i = start;
    let ghost v = chars_view(ls@);
    while i < ls.len() && is_blank(&ls[i])
        invariant
            start <= i <= ls.len(),
            v == chars_view(ls@),
            i + first_nonblank(v.skip(i as int)) == start + first_nonblank(v.skip(start as int)),
        decreases ls.len() - i,
    {
        assert(v.skip(i as int)[0] == ls@[i as int]@);
        assert(v.skip(i as int).drop_first() == v.skip(i + 1));
        i = i + 1;
    }
    proof {
        if i < ls.len() {
            assert(v.skip(i as int)[0] == ls@[i as int]@);
        }
    }
    i
}

/// Joins the first prose paragraph after the README's heading into one
/// line, for the page's title and description.
pub fn extract_tagline(readme: &str) -> (r: String)
    ensures
        r@ == tagline_spec(readme@),
{
    let v = chars_of(readme);
    let ls = lines_of(&v);
    let ghost lv = chars_view(ls@);
    assert(lv.skip(0) == lv);
    let h = first_nonblank_from(&ls, 0);
    let start = if h < ls.len() {
        h + 1
    } else {
        h
    };
    let p0 = first_nonblank_from(&ls, start);
    let ghost rest = if h < ls.len() {
        lv.skip(h + 1)
    } else {
        Seq::<Seq<char>>::empty()
    };
    proof {
        if h >= ls.len() {
            assert(lv.skip(start as int).len() == 0);
        }
        assert(rest.skip(first_nonblank(rest) as int) == lv.skip(p0 as int)) by {
            if h < ls.len() {
                assert(rest == lv.skip(start as int));
            } else {
                lemma_first_nonblank_bound(rest);
            }
        }
    }
    let mut out: Vec<char> = Vec::new();
    let mut k = p0;
    let ghost run_all = leading_run(lv.skip(p0 as int));
    let ghost tail = lv.skip(p0 as int);
    assert(tail.skip(0) == tail);
    while k < ls.len() && !is_blank(&ls[k])
        invariant
            p0 <= k <= ls.len(),
            lv == chars_view(ls@),
            tail == lv.skip(p0 as int),
            run_all == leading_run(tail),
            run_all == leading_run(tail.take(k - p0)) + leading_run(tail.skip(k - p0)),
            leading_run(tail.take(k - p0)) == tail.take(k - p0),
            out@ == join(tail.take(k - p0).map_values(|l: Seq<char>| trim(l)), seq![' ']),
        decreases ls.len() - k,
    {
        let t = trim_chars(&ls[k]);
        let ghost before = tail.take(k - p0);
        let ghost after = tail.take(k + 1 - p0);
        assert(tail.skip(k - p0)[0] == ls@[k as int]@);
        assert(tail.skip(k - p0).drop_first() == tail.skip(k + 1 - p0));
        assert(after == before.push(ls@[k as int]@));
        assert(leading_run(after) == after) by {
            lemma_leading_run_push(before, ls@[k as int]@);
        }
        assert(run_all == leading_run(after) + leading_run(tail.skip(k + 1 - p0))) by {
            assert(leading_run(tail.skip(k - p0)) == seq![ls@[k as int]@] + leading_run(
                tail.skip(k + 1 - p0),
            ));
            assert(before + (seq![ls@[k as int]@] + leading_run(tail.skip(k + 1 - p0))) =~= after
                + leading_run(tail.skip(k + 1 - p0)));
        }
        let ghost tb = before.map_values(|l: Seq<char>| trim(l));
        let ghost ta = after.map_values(|l: Seq<char>| trim(l));
        assert(ta == tb.push(t@));
        assert(ta.drop_last() == tb);
        if k > p0 {
            out.push(' ');
        }
        let mut j: usize = 0;
        let ghost base = out@;
        while j < t.len()
            invariant
                0 <= j <= t.len(),
                out@ == base + t@.take(j as int),
            decreases t.len() - j,
        {
            out.push(t[j]);
            assert(t@.take(j + 1) == t@.take(j as int).push(t@[j as int]));
            j = j + 1;
        }
        assert(t@.take(t.len() as int) == t@);
        proof {
            if k > p0 {
                assert(out@ == join(tb, seq![' ']) + seq![' '] + t@);
            } else {
                assert(tb.len() == 0);
                assert(out@ == t@);
            }
        }
        k = k + 1;
    }
    proof {
        let taken = tail.take(k - p0);
        if k < ls.len() {
            assert(tail.skip(k - p0)[0] == ls@[k as int]@);
        } else {
            assert(tail.skip(k - p0).len() == 0);
        }
        assert(leading_run(tail.skip(k - p0)) == Seq::<Seq<char>>::empty());
        assert(run_all == taken);
    }
    string_from_chars(&out)
}

proof fn lemma_leading_run_push(ls: Seq<Seq<char>>, l: Seq<char>)
    requires
        leading_run(ls) == ls,
        !blank(l),
    ensures
        leading_run(ls.push(l)) == ls.push(l),
    decreases ls.len(),
{
    if ls.len() > 0 {
        assert(!blank(ls[0]));
        assert((seq![ls[0]] + leading_run(ls.drop_first())).drop_first() == leading_run(
            ls.drop_first(),
        ));
        lemma_leading_run_push(ls.drop_first(), l);
        assert(ls.push(l).drop_first() == ls.drop_first().push(l));
        assert(seq![ls[0]] + ls.drop_first().push(l) == ls.push(l));
        assert(seq![ls[0]] + ls.drop_first() == ls);
    } else {
        assert(leading_run(seq![l].drop_first()) == Seq::<Seq<char>>::empty());
        assert(seq![l] + Seq::<Seq<char>>::empty() == seq![l]);
    }
}

/// Names what `comrak::markdown_to_html` renders from `md` with the table
/// and alerts extensions set as given and the heading-id prefix given.
pub uninterp spec fn markdown_html(
    md: Seq<char>,
    table: bool,
    alerts: bool,
    header_id_prefix: Option<Seq<char>>,
) -> Seq<char>;

/// Renders Markdown to HTML with `comrak::markdown_to_html`, on default
/// options except the table and alerts extensions and the heading-id
/// prefix. The contract names the result as a function of those inputs;
/// the rendering itself is not restated.
#[verifier::external_body]
fn markdown_to_html(md: &str, table: bool, alerts: bool, header_id_prefix: Option<String>) -> (r:
    String)
    ensures
        r@ == markdown_html(md@, table, alerts, opt_text(header_id_prefix)),
{
    let mut options = comrak::Options::default();
    options.extension.table = table;
    options.extension.alerts = alerts;
    options.extension.header_id_prefix = header_id_prefix;
    comrak::markdown_to_html(md, &options)
}

/// The README with its repository-relative image paths rewritten to where
/// the site serves them.
pub open spec fn site_markdown(readme: Seq<char>) -> Seq<char> {
    replace_all(
        replace_all(readme, "assets/screenshots/"@, "screenshots/"@),
        "assets/icon-1024.png"@,
        "favicon.png"@,
    )
}

/// `html` with each screenshot image tagged with the `screenshot` class.
pub open spec fn tagged_screenshots(html: Seq<char>) -> Seq<char> {
    replace_all(html, "<img src=\"screenshots/"@, "<img class=\"screenshot\" src=\"screenshots/"@)
}

/// The README rendered to HTML (tables and alerts on, heading ids without
/// prefix), screenshots tagged with the `screenshot` class.
pub open spec fn render_body_spec(readme: Seq<char>) -> Seq<char> {
    tagged_screenshots(markdown_html(site_markdown(readme), true, true, Some(Seq::empty())))
}

/// Rewrites the README's repository-relative image paths to where the
/// site serves them.
pub fn rewrite_asset_paths(readme: &str) -> (r: String)
    ensures
        r@ == site_markdown(readme@),
{
    proof {
        reveal_strlit("assets/screenshots/");
        reveal_strlit("assets/icon-1024.png");
    }
    let a = str_replace(readme, "assets/screenshots/", "screenshots/");
    str_replace(a.as_str(), "assets/icon-1024.png", "favicon.png")
}

/// Tags every screenshot image of the rendered page body with the
/// `screenshot` class.
pub fn tag_screenshots(html: &str) -> (r: String)
    ensures
        r@ == tagged_screenshots(html@),
{
    proof {
        reveal_strlit("<img src=\"screenshots/");
    }
    str_replace(html, "<img src=\"screenshots/", "<img class=\"screenshot\" src=\"screenshots/")
}

/// Renders the README as the page body.
pub fn render_body(readme: &str) -> (r: String)
    ensures
        r@ == render_body_spec(readme@),
{
    let markdown = rewrite_asset_paths(readme);
    let html = markdown_to_html(markdown.as_str(), true, true, Some(String::new()));
    tag_screenshots(html.as_str())
}

pub const PAGE_HEAD: &'static str = "<!doctype html>\n<html lang=\"en\">\n<head>\n<meta charset=\"utf-8\">\n<meta name=\"viewport\" content=\"width=device-width, initial-scale=1\">\n<title>netcheck \u{2014} ";

pub const PAGE_DESCRIPTION: &'static str = "</title>\n<meta name=\"description\" content=\"";

pub const PAGE_OG_DESCRIPTION: &'static str = "\">\n<link rel=\"canonical\" href=\"https://hugoh.github.io/netcheck/\">\n<link rel=\"icon\" type=\"image/png\" href=\"favicon.png\">\n<meta property=\"og:type\" content=\"website\">\n<meta property=\"og:title\" content=\"netcheck\">\n<meta property=\"og:description\" content=\"";

pub const PAGE_BODY_START: &'static str = "\">\n<meta property=\"og:url\" content=\"https://hugoh.github.io/netcheck/\">\n<link rel=\"stylesheet\"\n  href=\"https://cdn.jsdelivr.net/npm/@picocss/pico@2.1.1/css/pico.classless.min.css\"\n  integrity=\"sha384-NZhm4G1I7BpEGdjDKnzEfy3d78xvy7ECKUwwnKTYi036z42IyF056PbHfpQLIYgL\" crossorigin=\"anonymous\">\n<link rel=\"stylesheet\" href=\"style.css\">\n</head>\n<body>\n<nav class=\"topnav\">\n<a class=\"brand\" href=\"#\"><img src=\"favicon.png\" alt=\"\" width=\"24\" height=\"24\">netcheck</a>\n<a href=\"#install\">Install</a>\n<a href=\"#the-two-flavors\">The two flavors</a>\n<a href=\"#screenshots\">Screenshots</a>\n<a href=\"#usage\">Usage</a>\n<a href=\"https://github.com/hugoh/netcheck\">GitHub</a>\n</nav>\n<main>\n";

pub const PAGE_TAIL: &'static str = "\n</main>\n<footer>\n<p>Source, issues, and releases on <a href=\"https://github.com/hugoh/netcheck\">GitHub</a>.</p>\n</footer>\n</body>\n</html>\n";

/// The whole page: the description goes into the title, the description
/// meta tag and the Open Graph description; the body goes into `<main>`.
pub open spec fn render_page_spec(description: Seq<char>, body: Seq<char>) -> Seq<char> {
    PAGE_HEAD@ + description + PAGE_DESCRIPTION@ + description + PAGE_OG_DESCRIPTION@ + description
        + PAGE_BODY_START@ + body + PAGE_TAIL@
}

pub fn render_page(description: &str, body: &str) -> (r: String)
    ensures
        r@ == render_page_spec(description@, body@),
{
    String::from_str(PAGE_HEAD).concat(description).concat(PAGE_DESCRIPTION).concat(
        description,
    ).concat(PAGE_OG_DESCRIPTION).concat(description).concat(PAGE_BODY_START).concat(body).concat(
        PAGE_TAIL,
    )
}

} // verus!
