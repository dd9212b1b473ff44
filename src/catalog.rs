//! Reading trainers out of the catalog's listing pages. The HTML parser
//! finds the elements; turning their text into records is verified here.
use vstd::prelude::*;
use crate::error::AppError;
use crate::model::Trainer;
use crate::text::{
    char_views, chars_of, contains_chars, contains_seq, find_first, find_last, first_index_of,
    last_index_of, lines, lines_of, join_lines, occurs_at, occurs_at_exec, parse_i32, parses_as_i32,
    remove_all, remove_all_of, slice_chars, split_chars, split_on, string_of, trim, trim_end_char,
    trim_end_of, trimmed,
};

verus! {

/// The outer HTML of each element of the document `html` that `selector`
/// matches, in document order.
pub uninterp spec fn document_matches(html: Seq<char>, selector: Seq<char>) -> Seq<Seq<char>>;

/// The text of each element of the fragment `html` that `selector` matches,
/// in document order.
pub uninterp spec fn fragment_texts(html: Seq<char>, selector: Seq<char>) -> Seq<Seq<char>>;

/// The attribute `attr` of each element of the fragment `html` that
/// `selector` matches, in document order.
pub uninterp spec fn fragment_attrs(html: Seq<char>, selector: Seq<char>, attr: Seq<char>) -> Seq<Option<Seq<char>>>;

pub open spec fn views_of(v: Seq<String>) -> Seq<Seq<char>> {
    v.map_values(|s: String| s@)
}

pub open spec fn opt_views_of(v: Seq<Option<String>>) -> Seq<Option<Seq<char>>> {
    v.map_values(|o: Option<String>| match o {
        Some(s) => Some(s@),
        None => None,
    })
}

/// Relies on `scraper::Html::parse_document`, `Selector::parse`, `Html::select`
/// and `ElementRef::html`: the outer HTML of each match, a function of the
/// document and the selector (the `deterministic` feature keeps attributes in
/// document order when they are written out). A selector that does not parse
/// matches nothing.
#[verifier::external_body]
fn select_in_document(html: &str, selector: &str) -> (r: Vec<String>)
    ensures
        views_of(r@) == document_matches(html@, selector@),
{
    let doc = scraper::Html::parse_document(html);
    match scraper::Selector::parse(selector) {
        Ok(sel) => doc.select(&sel).map(|e| e.html()).collect(),
        Err(_) => Vec::new(),
    }
}

/// Relies on `scraper::Html::parse_fragment`, `Selector::parse`,
/// `Html::select` and `ElementRef::text`: the text of each match, a function
/// of the fragment and the selector. A selector that does not parse matches
/// nothing.
#[verifier::external_body]
fn select_texts(html: &str, selector: &str) -> (r: Vec<String>)
    ensures
        views_of(r@) == fragment_texts(html@, selector@),
{
    let doc = scraper::Html::parse_fragment(html);
    match scraper::Selector::parse(selector) {
        Ok(sel) => doc.select(&sel).map(|e| e.text().collect::<String>()).collect(),
        Err(_) => Vec::new(),
    }
}

/// Relies on `scraper::Html::parse_fragment`, `Selector::parse`,
/// `Html::select` and `ElementRef::attr`: the attribute of each match, a
/// function of the fragment, the selector and the attribute name. A selector
/// that does not parse matches nothing.
#[verifier::external_body]
fn select_attrs(html: &str, selector: &str, attr: &str) -> (r: Vec<Option<String>>)
    ensures
        opt_views_of(r@) == fragment_attrs(html@, selector@, attr@),
{
    let doc = scraper::Html::parse_fragment(html);
    match scraper::Selector::parse(selector) {
        Ok(sel) => doc.select(&sel).map(|e| e.attr(attr).map(|a| a.to_string())).collect(),
        Err(_) => Vec::new(),
    }
}

pub open spec fn first_or_empty(v: Seq<Seq<char>>) -> Seq<char> {
    if v.len() > 0 { v[0] } else { Seq::empty() }
}

pub open spec fn first_attr_or_empty(v: Seq<Option<Seq<char>>>) -> Seq<char> {
    if v.len() > 0 && v[0] is Some { v[0]->0 } else { Seq::empty() }
}

/// The last `/`-separated segment of `url` once its trailing slashes are gone.
pub open spec fn last_segment(url: Seq<char>) -> Seq<char> {
    let t = trim_end_char(url, '/');
    t.subrange(last_index_of(t, '/') + 1, t.len() as int)
}

pub open spec fn middle_dot() -> char {
    '\u{b7}'
}

/// The text before the first `·` of `s`, or all of it.
pub open spec fn first_part(s: Seq<char>) -> Seq<char> {
    let i = first_index_of(s, middle_dot());
    if i < 0 { s } else { s.subrange(0, i) }
}

/// The text between the first and the second `·` of `s`, if it has one.
pub open spec fn second_part(s: Seq<char>) -> Option<Seq<char>> {
    let i = first_index_of(s, middle_dot());
    if i < 0 { None } else { Some(first_part(s.subrange(i + 1, s.len() as int))) }
}

pub open spec fn game_version_label() -> Seq<char> {
    "Game Version:"@
}

/// The game version written in a listing's entry text: the second
/// `·`-separated part, if it mentions `Game Version:`, without that label.
pub open spec fn game_version_of(entry: Seq<char>) -> Seq<char> {
    match second_part(entry) {
        Some(p) => if contains_seq(p, game_version_label()) {
            trimmed(remove_all(p, game_version_label()))
        } else {
            Seq::empty()
        },
        None => Seq::empty(),
    }
}

/// `t` is the record that a listing with these texts describes.
pub open spec fn is_listing_record(
    t: Trainer,
    title: Seq<char>,
    href: Seq<char>,
    thumbnail: Seq<char>,
    entry: Seq<char>,
    day: Seq<char>,
    month: Seq<char>,
    year: Seq<char>,
) -> bool {
    &&& t.id@ == last_segment(href)
    &&& t.name@ == trimmed(title)
    &&& t.version@ == trimmed(first_part(entry))
    &&& t.game_version@ == game_version_of(entry)
    &&& t.download_url@ == Seq::<char>::empty()
    &&& t.description@ == entry
    &&& t.thumbnail@ == thumbnail
    &&& t.download_count == 0
    &&& t.last_update@ == day + seq![' '] + month + seq![' '] + year
}

/// The last segment of `url` once its trailing slashes are gone.
pub fn url_last_segment(url: &str) -> (r: String)
    ensures
        r@ == last_segment(url@),
{
    let u = chars_of(url);
    let t = trim_end_of(&u, '/');
    let tl = t.len();
    let start = match find_last(&t, '/') {
        Some(i) => i + 1,
        None => 0,
    };
    string_of(&slice_chars(&t, start, tl))
}

/// The game version written in a listing's entry text.
pub fn game_version_in(entry: &Vec<char>) -> (r: Vec<char>)
    ensures
        r@ == game_version_of(entry@),
{
    let el = entry.len();
    match find_first(entry, '\u{b7}') {
        None => Vec::new(),
        Some(i) => {
            let rest = slice_chars(entry, i + 1, el);
            let part = match find_first(&rest, '\u{b7}') {
                Some(j) => slice_chars(&rest, 0, j),
                None => rest,
            };
            let label = chars_of("Game Version:");
            proof {
                reveal_strlit("Game Version:");
                assert(label@.len() > 0);
            }
            if contains_chars(&part, &label) {
                trim(&remove_all_of(&part, &label))
            } else {
                Vec::new()
            }
        },
    }
}

/// The record that a listing describes, from the texts found in it: the
/// title link's text and target, the thumbnail's source, the entry text and
/// the day, month and year of its last update.
pub fn trainer_from_listing(
    title: &str,
    href: &str,
    thumbnail: &str,
    entry: &str,
    day: &str,
    month: &str,
    year: &str,
) -> (r: Trainer)
    ensures
        is_listing_record(r, title@, href@, thumbnail@, entry@, day@, month@, year@),
{
    let entry_chars = chars_of(entry);
    let version_part = match find_first(&entry_chars, '\u{b7}') {
        Some(i) => slice_chars(&entry_chars, 0, i),
        None => entry_chars.clone(),
    };
    assert(version_part@ == first_part(entry@));
    let last_update = String::from_str(day).concat(" ").concat(month).concat(" ").concat(year);
    proof {
        reveal_strlit(" ");
        assert(last_update@ =~= day@ + seq![' '] + month@ + seq![' '] + year@);
    }
    Trainer {
        id: url_last_segment(href),
        name: string_of(&trim(&chars_of(title))),
        version: string_of(&trim(&version_part)),
        game_version: string_of(&game_version_in(&entry_chars)),
        download_url: String::new(),
        description: String::from_str(entry),
        thumbnail: String::from_str(thumbnail),
        download_count: 0,
        last_update,
    }
}

fn first_text(v: &Vec<String>) -> (r: String)
    ensures
        r@ == first_or_empty(views_of(v@)),
{
    if v.len() > 0 { v[0].clone() } else { String::new() }
}

fn first_attr(v: &Vec<Option<String>>) -> (r: String)
    ensures
        r@ == first_attr_or_empty(opt_views_of(v@)),
{
    if v.len() > 0 {
        match &v[0] {
            Some(s) => s.clone(),
            None => String::new(),
        }
    } else {
        String::new()
    }
}

/// The article has a title link.
pub open spec fn has_title(article: Seq<char>) -> bool {
    fragment_texts(article, "h2.post-title a"@).len() > 0
}

/// `t` is the record that the listing article `a` describes.
pub open spec fn describes(a: Seq<char>, t: Trainer) -> bool {
    is_listing_record(
        t,
        fragment_texts(a, "h2.post-title a"@)[0],
        first_attr_or_empty(fragment_attrs(a, "h2.post-title a"@, "href"@)),
        first_attr_or_empty(fragment_attrs(a, ".post-details-thumb img"@, "src"@)),
        first_or_empty(fragment_texts(a, ".entry"@)),
        first_or_empty(fragment_texts(a, ".post-details-day"@)),
        first_or_empty(fragment_texts(a, ".post-details-month"@)),
        first_or_empty(fragment_texts(a, ".post-details-year"@)),
    )
}

/// The articles of `articles` that have a title link, in order.
pub open spec fn titled(articles: Seq<Seq<char>>) -> Seq<Seq<char>>
    decreases articles.len(),
{
    if articles.len() == 0 {
        Seq::empty()
    } else if has_title(articles.last()) {
        titled(articles.drop_last()).push(articles.last())
    } else {
        titled(articles.drop_last())
    }
}

/// The record described by the listing article whose outer HTML is `article`,
/// if it has a title link.
pub fn parse_listing_article(article: &str) -> (r: Option<Trainer>)
    ensures
        r is None <==> !has_title(article@),
        r is Some ==> describes(article@, r->0),
{
    let titles = select_texts(article, "h2.post-title a");
    if titles.len() == 0 {
        return None;
    }
    let href = first_attr(&select_attrs(article, "h2.post-title a", "href"));
    let thumbnail = first_attr(&select_attrs(article, ".post-details-thumb img", "src"));
    let entry = first_text(&select_texts(article, ".entry"));
    let day = first_text(&select_texts(article, ".post-details-day"));
    let month = first_text(&select_texts(article, ".post-details-month"));
    let year = first_text(&select_texts(article, ".post-details-year"));
    let t = trainer_from_listing(
        titles[0].as_str(),
        href.as_str(),
        thumbnail.as_str(),
        entry.as_str(),
        day.as_str(),
        month.as_str(),
        year.as_str(),
    );
    Some(t)
}

/// The trainers listed on a catalog page: one per article that has a title
/// link, in page order.
pub fn parse_trainer_list(html: &str) -> (r: Result<Vec<Trainer>, AppError>)
    ensures
        r is Ok,
        r->Ok_0@.len() == titled(document_matches(html@, "article.post-standard"@)).len(),
        forall|i: int| 0 <= i < r->Ok_0@.len() ==> describes(
            titled(document_matches(html@, "article.post-standard"@))[i],
            #[trigger] r->Ok_0@[i],
        ),
{
    let articles = select_in_document(html, "article.post-standard");
    let ghost all = views_of(articles@);
    let mut trainers: Vec<Trainer> = Vec::new();
    let mut i: usize = 0;
    while i < articles.len()
        invariant
            i <= articles@.len(),
            all == views_of(articles@),
            all == document_matches(html@, "article.post-standard"@),
            trainers@.len() == titled(all.subrange(0, i as int)).len(),
            forall|k: int| 0 <= k < trainers@.len()
                ==> describes(titled(all.subrange(0, i as int))[k], #[trigger] trainers@[k]),
        decreases articles@.len() - i,
    {
        let ghost before = trainers@;
        let ghost prev = titled(all.subrange(0, i as int));
        assert(all.subrange(0, i + 1).drop_last() =~= all.subrange(0, i as int));
        assert(all.subrange(0, i + 1).last() == articles@[i as int]@);
        match parse_listing_article(articles[i].as_str()) {
            Some(t) => {
                trainers.push(t);
                assert forall|k: int| 0 <= k < trainers@.len()
                    implies describes(titled(all.subrange(0, i + 1))[k], #[trigger] trainers@[k]) by {
                    if k < before.len() {
                        assert(trainers@[k] == before[k]);
                        assert(titled(all.subrange(0, i + 1))[k] == prev[k]);
                    }
                };
            },
            None => {},
        }
        i = i + 1;
    }
    assert(all.subrange(0, articles@.len() as int) =~= all);
    Ok(trainers)
}

// ---- detail pages ----

/// The text of each element of the document `html` that `selector` matches.
pub uninterp spec fn document_texts(html: Seq<char>, selector: Seq<char>) -> Seq<Seq<char>>;

/// The attribute `attr` of each element of the document `html` that
/// `selector` matches.
pub uninterp spec fn document_attrs(html: Seq<char>, selector: Seq<char>, attr: Seq<char>) -> Seq<Option<Seq<char>>>;

/// The inner HTML of each element of the document `html` that `selector`
/// matches.
pub uninterp spec fn document_inner_html(html: Seq<char>, selector: Seq<char>) -> Seq<Seq<char>>;

/// The text of the fragment `html`.
pub uninterp spec fn fragment_text(html: Seq<char>) -> Seq<char>;

/// `s` in lower case, as `str::to_lowercase` gives it.
pub uninterp spec fn lower_of(s: Seq<char>) -> Seq<char>;

/// Relies on `scraper::Html::parse_document`, `Selector::parse`,
/// `Html::select` and `ElementRef::text`: the text of each match. A selector
/// that does not parse matches nothing.
#[verifier::external_body]
fn select_doc_texts(html: &str, selector: &str) -> (r: Vec<String>)
    ensures
        views_of(r@) == document_texts(html@, selector@),
{
    let doc = scraper::Html::parse_document(html);
    match scraper::Selector::parse(selector) {
        Ok(sel) => doc.select(&sel).map(|e| e.text().collect::<String>()).collect(),
        Err(_) => Vec::new(),
    }
}

/// Relies on `scraper::Html::parse_document`, `Selector::parse`,
/// `Html::select` and `ElementRef::attr`: the attribute of each match. A
/// selector that does not parse matches nothing.
#[verifier::external_body]
fn select_doc_attrs(html: &str, selector: &str, attr: &str) -> (r: Vec<Option<String>>)
    ensures
        opt_views_of(r@) == document_attrs(html@, selector@, attr@),
{
    let doc = scraper::Html::parse_document(html);
    match scraper::Selector::parse(selector) {
        Ok(sel) => doc.select(&sel).map(|e| e.attr(attr).map(|a| a.to_string())).collect(),
        Err(_) => Vec::new(),
    }
}

/// Relies on `scraper::Html::parse_document`, `Selector::parse`,
/// `Html::select` and `ElementRef::inner_html`: the inner HTML of each match
/// (the `deterministic` feature keeps attributes in document order when they
/// are written out). A selector that does not parse matches nothing.
#[verifier::external_body]
fn select_doc_inner_html(html: &str, selector: &str) -> (r: Vec<String>)
    ensures
        views_of(r@) == document_inner_html(html@, selector@),
{
    let doc = scraper::Html::parse_document(html);
    match scraper::Selector::parse(selector) {
        Ok(sel) => doc.select(&sel).map(|e| e.inner_html()).collect(),
        Err(_) => Vec::new(),
    }
}

/// Relies on `scraper::Html::parse_fragment`, `Html::root_element` and
/// `ElementRef::text`: all the text of the fragment.
#[verifier::external_body]
fn text_of_fragment(html: &str) -> (r: String)
    ensures
        r@ == fragment_text(html@),
{
    scraper::Html::parse_fragment(html).root_element().text().collect::<String>()
}

/// Relies on `str::to_lowercase`: the result depends on the characters alone.
#[verifier::external_body]
fn lowercase(s: &str) -> (r: String)
    ensures
        r@ == lower_of(s@),
{
    s.to_lowercase()
}

pub open spec fn is_marker_line(l: Seq<char>) -> bool {
    contains_seq(l, "fling-before-content"@) || contains_seq(l, "fling-after-content"@)
}

/// The lines of `ls` that hold no advertisement marker.
pub open spec fn unmarked(ls: Seq<Seq<char>>) -> Seq<Seq<char>>
    decreases ls.len(),
{
    if ls.len() == 0 {
        Seq::empty()
    } else if is_marker_line(ls.last()) {
        unmarked(ls.drop_last())
    } else {
        unmarked(ls.drop_last()).push(ls.last())
    }
}

/// The entry's inner HTML with the advertisement lines taken out.
pub open spec fn cleaned(inner: Seq<char>) -> Seq<char> {
    join_lines(unmarked(lines_of(inner)))
}

pub open spec fn is_summary_line(l: Seq<char>) -> bool {
    contains_seq(l, "Options"@) && contains_seq(l, "Game Version:"@)
}

/// The first line of `ls` that names both the options and the game version,
/// trimmed; empty if there is none.
pub open spec fn summary_line(ls: Seq<Seq<char>>) -> Seq<char>
    decreases ls.len(),
{
    if ls.len() == 0 {
        Seq::empty()
    } else if is_summary_line(ls[0]) {
        trimmed(ls[0])
    } else {
        summary_line(ls.drop_first())
    }
}

pub open spec fn starts_with_seq(s: Seq<char>, p: Seq<char>) -> bool {
    occurs_at(s, 0, p)
}

/// The option lines after the first line that mentions `Options`, each
/// trimmed and ended with `\n`, skipping empty ones and stopping at one that
/// starts with `Download`.
pub open spec fn options_text(ls: Seq<Seq<char>>, in_options: bool) -> Seq<char>
    decreases ls.len(),
{
    if ls.len() == 0 {
        Seq::empty()
    } else {
        let l = trimmed(ls[0]);
        if contains_seq(l, "Options"@) && !in_options {
            options_text(ls.drop_first(), true)
        } else if in_options && l.len() > 0 {
            if starts_with_seq(l, "Download"@) {
                Seq::empty()
            } else {
                l + seq!['\n'] + options_text(ls.drop_first(), true)
            }
        } else {
            options_text(ls.drop_first(), in_options)
        }
    }
}

/// The `k`-th `·`-separated part of the summary line, trimmed, with `label`
/// taken out and trimmed again; empty if there is no such part.
pub open spec fn summary_field(line: Seq<char>, k: int, label: Seq<char>) -> Seq<char> {
    let parts = split_on(line, middle_dot());
    if k < parts.len() { trimmed(remove_all(trimmed(parts[k]), label)) } else { Seq::empty() }
}

/// `s` with each space turned into `-`.
pub open spec fn dashed(s: Seq<char>) -> Seq<char> {
    Seq::new(s.len(), |i: int| if s[i] == ' ' { '-' } else { s[i] })
}

/// The id of a detail page: from its canonical link if it has one, else from
/// its title.
pub open spec fn detail_id(title: Seq<char>, canonical: Option<Seq<char>>) -> Seq<char> {
    match canonical {
        Some(u) => remove_all(last_segment(u), "-trainer"@),
        None => dashed(remove_all(lower_of(title), " trainer"@)),
    }
}

/// `t` is the record that a detail page with these texts describes.
pub open spec fn is_detail_record(
    t: Trainer,
    title: Seq<char>,
    thumbnail: Seq<char>,
    entry: Seq<char>,
    downloads: Seq<char>,
    download_url: Seq<char>,
    canonical: Option<Seq<char>>,
) -> bool {
    let summary = summary_line(lines_of(entry));
    &&& t.id@ == detail_id(trimmed(title), canonical)
    &&& t.name@ == trimmed(title)
    &&& t.version@ == (if split_on(summary, middle_dot()).len() > 0 {
        trimmed(split_on(summary, middle_dot())[0])
    } else {
        Seq::empty()
    })
    &&& t.game_version@ == summary_field(summary, 1, "Game Version:"@)
    &&& t.last_update@ == summary_field(summary, 2, "Last Updated:"@)
    &&& t.description@ == options_text(lines_of(entry), false)
    &&& t.thumbnail@ == thumbnail
    &&& t.download_url@ == download_url
    &&& t.download_count == match parses_as_i32(downloads) { Some(v) => v, None => 0 }
}

fn contains_lit(s: &Vec<char>, p: &str) -> (r: bool)
    ensures
        r == contains_seq(s@, p@),
{
    contains_chars(s, &chars_of(p))
}

fn field_of(parts: &Vec<Vec<char>>, k: usize, label: &str) -> (r: Vec<char>)
    requires
        label@.len() > 0,
    ensures
        r@ == (if (k as int) < parts@.len() {
            trimmed(remove_all(trimmed(parts@[k as int]@), label@))
        } else {
            Seq::empty()
        }),
{
    if k < parts.len() {
        let l = chars_of(label);
        trim(&remove_all_of(&trim(&parts[k]), &l))
    } else {
        Vec::new()
    }
}

fn summary_of(ls: &Vec<Vec<char>>) -> (r: Vec<char>)
    ensures
        r@ == summary_line(char_views(ls@)),
{
    let n = ls.len();
    let mut i: usize = 0;
    let ghost all = char_views(ls@);
    assert(all.subrange(0, n as int) =~= all);
    while i < n
        invariant
            n == ls@.len(),
            all == char_views(ls@),
            i <= n,
            summary_line(all) == summary_line(all.subrange(i as int, n as int)),
        decreases n - i,
    {
        assert(all.subrange(i as int, n as int)[0] == ls@[i as int]@);
        assert(all.subrange(i as int, n as int).drop_first() =~= all.subrange(i + 1, n as int));
        if contains_lit(&ls[i], "Options") && contains_lit(&ls[i], "Game Version:") {
            return trim(&ls[i]);
        }
        i = i + 1;
    }
    Vec::new()
}

fn options_of(ls: &Vec<Vec<char>>) -> (r: Vec<char>)
    ensures
        r@ == options_text(char_views(ls@), false),
{
    let n = ls.len();
    let ghost all = char_views(ls@);
    let mut out: Vec<char> = Vec::new();
    let mut in_options = false;
    let mut i: usize = 0;
    assert(all.subrange(0, n as int) =~= all);
    while i < n
        invariant
            n == ls@.len(),
            all == char_views(ls@),
            i <= n,
            out@ + options_text(all.subrange(i as int, n as int), in_options) == options_text(all, false),
        decreases n - i,
    {
        let ghost rest = all.subrange(i as int, n as int);
        assert(rest[0] == ls@[i as int]@);
        assert(rest.drop_first() =~= all.subrange(i + 1, n as int));
        let l = trim(&ls[i]);
        if contains_lit(&l, "Options") && !in_options {
            in_options = true;
        } else if in_options && l.len() > 0 {
            let dl = chars_of("Download");
            if occurs_at_exec(&l, 0, &dl) {
                assert(out@ + Seq::<char>::empty() =~= out@);
                return out;
            }
            let ghost before = out@;
            let mut k: usize = 0;
            while k < l.len()
                invariant
                    k <= l@.len(),
                    out@ == before + l@.subrange(0, k as int),
                decreases l@.len() - k,
            {
                out.push(l[k]);
                k = k + 1;
                assert(out@ =~= before + l@.subrange(0, k as int));
            }
            out.push('\n');
            assert(out@ =~= before + l@ + seq!['\n']);
            assert(before + (l@ + seq!['\n'] + options_text(rest.drop_first(), true))
                =~= out@ + options_text(rest.drop_first(), true));
        }
        i = i + 1;
    }
    assert(out@ + Seq::<char>::empty() =~= out@);
    out
}

fn cleaned_of(inner: &str) -> (r: String)
    ensures
        r@ == cleaned(inner@),
{
    let ls = lines(&chars_of(inner));
    let ghost all = char_views(ls@);
    let mut kept: Vec<Vec<char>> = Vec::new();
    let mut i: usize = 0;
    while i < ls.len()
        invariant
            i <= ls@.len(),
            all == char_views(ls@),
            char_views(kept@) == unmarked(all.subrange(0, i as int)),
        decreases ls@.len() - i,
    {
        assert(all.subrange(0, i + 1).drop_last() =~= all.subrange(0, i as int));
        assert(all.subrange(0, i + 1).last() == ls@[i as int]@);
        let line = &ls[i];
        if !(contains_lit(line, "fling-before-content") || contains_lit(line, "fling-after-content")) {
            let ghost before = kept@;
            kept.push(slice_chars(line, 0, line.len()));
            assert(line@.subrange(0, line@.len() as int) =~= line@);
            assert(char_views(kept@) =~= char_views(before).push(line@));
        }
        i = i + 1;
    }
    assert(all.subrange(0, ls@.len() as int) =~= all);
    let mut out: Vec<char> = Vec::new();
    let ghost ks = char_views(kept@);
    let mut j: usize = 0;
    while j < kept.len()
        invariant
            j <= kept@.len(),
            ks == char_views(kept@),
            out@ == join_lines(ks.subrange(0, j as int)),
        decreases kept@.len() - j,
    {
        let ghost before = out@;
        if j > 0 {
            out.push('\n');
        }
        let piece = &kept[j];
        let mut k: usize = 0;
        let ghost mid = out@;
        while k < piece.len()
            invariant
                k <= piece@.len(),
                out@ == mid + piece@.subrange(0, k as int),
            decreases piece@.len() - k,
        {
            out.push(piece[k]);
            k = k + 1;
            assert(out@ =~= mid + piece@.subrange(0, k as int));
        }
        assert(ks.subrange(0, j + 1).drop_last() =~= ks.subrange(0, j as int));
        assert(ks[j as int] == piece@);
        if j == 0 {
            assert(ks.subrange(0, 1) =~= seq![piece@]);
            assert(out@ =~= piece@);
        } else {
            assert(out@ =~= before + seq!['\n'] + piece@);
        }
        j = j + 1;
    }
    assert(ks.subrange(0, kept@.len() as int) =~= ks);
    string_of(&out)
}

/// The record that a detail page describes, from the texts found in it: the
/// title, the thumbnail's source, the entry text, the download counter's
/// text, the download link and the canonical link, if any.
pub fn trainer_from_detail(
    title: &str,
    thumbnail: &str,
    entry: &str,
    downloads: &str,
    download_url: &str,
    canonical: Option<&str>,
) -> (r: Trainer)
    ensures
        is_detail_record(r, title@, thumbnail@, entry@, downloads@, download_url@, match canonical {
            Some(u) => Some(u@),
            None => None,
        }),
{
    let name = string_of(&trim(&chars_of(title)));
    let ls = lines(&chars_of(entry));
    let summary = summary_of(&ls);
    let parts = split_chars(&summary, '\u{b7}');
    let version = trim(&parts[0]);
    proof {
        reveal_strlit("Game Version:");
        reveal_strlit("Last Updated:");
        reveal_strlit("-trainer");
        reveal_strlit(" trainer");
    }
    let game_version = field_of(&parts, 1, "Game Version:");
    let last_update = field_of(&parts, 2, "Last Updated:");
    let description = options_of(&ls);
    let download_count = match parse_i32(&chars_of(downloads)) {
        Some(v) => v,
        None => 0,
    };
    let id = match canonical {
        Some(u) => {
            let seg = chars_of(url_last_segment(u).as_str());
            remove_all_of(&seg, &chars_of("-trainer"))
        },
        None => {
            let lower = chars_of(lowercase(name.as_str()).as_str());
            let stripped = remove_all_of(&lower, &chars_of(" trainer"));
            let mut d: Vec<char> = Vec::new();
            let mut i: usize = 0;
            while i < stripped.len()
                invariant
                    i <= stripped@.len(),
                    d@ == dashed(stripped@).subrange(0, i as int),
                decreases stripped@.len() - i,
            {
                d.push(if stripped[i] == ' ' { '-' } else { stripped[i] });
                i = i + 1;
                assert(d@ =~= dashed(stripped@).subrange(0, i as int));
            }
            assert(dashed(stripped@).subrange(0, stripped@.len() as int) =~= dashed(stripped@));
            d
        },
    };
    Trainer {
        id: string_of(&id),
        name,
        version: string_of(&version),
        game_version: string_of(&game_version),
        download_url: String::from_str(download_url),
        description: string_of(&description),
        thumbnail: String::from_str(thumbnail),
        download_count,
        last_update: string_of(&last_update),
    }
}

/// The entry text of a detail page: the text of its first `.entry` element
/// once the advertisement lines are taken out; empty without one.
pub open spec fn detail_entry(html: Seq<char>) -> Seq<char> {
    let inner = document_inner_html(html, ".entry"@);
    if inner.len() > 0 { fragment_text(cleaned(inner[0])) } else { Seq::empty() }
}

/// The target of the page's first canonical link, if it has one.
pub open spec fn canonical_of(html: Seq<char>) -> Option<Seq<char>> {
    let links = document_attrs(html, "link[rel='canonical']"@, "href"@);
    if links.len() > 0 { links[0] } else { None }
}

/// The page has a title and its first download link has a target.
pub open spec fn has_title_and_link(html: Seq<char>) -> bool {
    &&& document_texts(html, "h1.post-title"@).len() > 0
    &&& document_attrs(html, ".attachment-link"@, "href"@).len() > 0
    &&& document_attrs(html, ".attachment-link"@, "href"@)[0] is Some
}

/// The record a catalog detail page describes. It fails when the page has
/// no title or its first download link has no target.
pub fn parse_trainer_detail(html: &str) -> (r: Result<Trainer, AppError>)
    ensures
        r is Ok <==> has_title_and_link(html@),
        r is Err ==> (r->Err_0 is ParseError),
        document_texts(html@, "h1.post-title"@).len() == 0 ==> r->Err_0->ParseError_0@ == "Title not found"@,
        document_texts(html@, "h1.post-title"@).len() > 0 && !has_title_and_link(html@)
            ==> r->Err_0->ParseError_0@ == "Download link not found"@,
        r is Ok ==> is_detail_record(
                r->Ok_0,
                document_texts(html@, "h1.post-title"@)[0],
                first_attr_or_empty(document_attrs(html@, ".entry img.aligncenter"@, "src"@)),
                detail_entry(html@),
                first_or_empty(document_texts(html@, ".attachment-downloads"@)),
                document_attrs(html@, ".attachment-link"@, "href"@)[0]->0,
                canonical_of(html@),
            ),
{
    let titles = select_doc_texts(html, "h1.post-title");
    if titles.len() == 0 {
        return Err(AppError::ParseError(String::from_str("Title not found")));
    }
    let thumbnail = first_attr(&select_doc_attrs(html, ".entry img.aligncenter", "src"));
    let inner = select_doc_inner_html(html, ".entry");
    let entry = if inner.len() > 0 {
        text_of_fragment(cleaned_of(inner[0].as_str()).as_str())
    } else {
        String::new()
    };
    let downloads = first_text(&select_doc_texts(html, ".attachment-downloads"));
    let links = select_doc_attrs(html, ".attachment-link", "href");
    if links.len() == 0 {
        return Err(AppError::ParseError(String::from_str("Download link not found")));
    }
    let download_url = match &links[0] {
        Some(u) => u,
        None => {
            return Err(AppError::ParseError(String::from_str("Download link not found")));
        },
    };
    let canonical = select_doc_attrs(html, "link[rel='canonical']", "href");
    let canonical_href: Option<&str> = if canonical.len() > 0 {
        match &canonical[0] {
            Some(u) => Some(u.as_str()),
            None => None,
        }
    } else {
        None
    };
    Ok(trainer_from_detail(
        titles[0].as_str(),
        thumbnail.as_str(),
        entry.as_str(),
        downloads.as_str(),
        download_url.as_str(),
        canonical_href,
    ))
}

} // verus!
