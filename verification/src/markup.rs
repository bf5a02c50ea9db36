//! Reading the parts of an HTML document the crawler needs: the text and
//! chosen attributes of the elements a CSS selector matches, whitespace
//! normalization, and Open Graph metadata.

use vstd::prelude::*;

use crate::bindings::{
    css_selection, document_tree_walk, fragment_texts, fragment_texts_of, html_to_markdown, joined_url,
    markdown_of, parsed_url, select_elements, tree_walk_of, url_join, url_parse,
};
use crate::domain::{metadata_view, some_metadata, ArticleMetadata, MetadataView};
use crate::error::{concat3, CrawlError};
use crate::text::{
    append_str, chars_of, str_eq, is_white_space, opt_view, owned, push_char, str_views, trim, trimmed,
    white_space,
};

verus! {

// --- Elements ----------------------------------------------------------------------

/// What the crawler reads of a matched element: its tag name, the values of
/// the attributes it consults, its text nodes in document order, and its
/// serialized HTML.
#[derive(Debug, Clone, PartialEq, Eq)]
pub struct HtmlElement {
    pub name: String,
    /// The values of the attributes asked for, in the order asked.
    pub attributes: Vec<Option<String>>,
    pub texts: Vec<String>,
    pub html: String,
}

pub ghost struct ElementView {
    pub name: Seq<char>,
    pub attributes: Seq<Option<Seq<char>>>,
    pub texts: Seq<Seq<char>>,
    pub html: Seq<char>,
}

impl View for HtmlElement {
    type V = ElementView;

    open spec fn view(&self) -> ElementView {
        ElementView {
            name: self.name@,
            attributes: self.attributes@.map_values(|a: Option<String>| opt_view(a)),
            texts: self.texts@.map_values(|t: String| t@),
            html: self.html@,
        }
    }
}

pub open spec fn element_views(v: Seq<HtmlElement>) -> Seq<ElementView> {
    v.map_values(|e: HtmlElement| e@)
}

// --- Whitespace ----------------------------------------------------------------------

/// The maximal runs of non-white-space characters, in order
/// (`str::split_whitespace`).
pub open spec fn words(s: Seq<char>) -> Seq<Seq<char>>
    decreases s.len(),
{
    if s.len() == 0 {
        Seq::empty()
    } else {
        let rest = words(s.drop_last());
        let c = s.last();
        if is_white_space(c) {
            rest
        } else if s.len() == 1 || is_white_space(s[s.len() - 2]) {
            rest.push(seq![c])
        } else {
            rest.update(rest.len() - 1, rest.last().push(c))
        }
    }
}

/// The parts joined with `sep` between them (`join`).
pub open spec fn join_with(parts: Seq<Seq<char>>, sep: Seq<char>) -> Seq<char>
    decreases parts.len(),
{
    if parts.len() == 0 {
        Seq::empty()
    } else if parts.len() == 1 {
        parts[0]
    } else {
        join_with(parts.drop_last(), sep) + sep + parts.last()
    }
}

/// The words of `s` separated by single spaces.
pub open spec fn collapse_whitespace(s: Seq<char>) -> Seq<char> {
    join_with(words(s), " "@)
}

proof fn lemma_words_nonempty(s: Seq<char>)
    ensures
        s.len() > 0 && !is_white_space(s.last()) ==> words(s).len() > 0,
        forall|i: int| 0 <= i < words(s).len() ==> #[trigger] words(s)[i].len() > 0,
    decreases s.len(),
{
    if s.len() > 0 {
        lemma_words_nonempty(s.drop_last());
        reveal_with_fuel(words, 2);
        let rest = words(s.drop_last());
        if !is_white_space(s.last()) && !(s.len() == 1 || is_white_space(s[s.len() - 2])) {
            assert(s.drop_last().last() == s[s.len() - 2]);
        }
    }
}

proof fn lemma_join_extend_last(parts: Seq<Seq<char>>, sep: Seq<char>, c: char)
    requires
        parts.len() > 0,
    ensures
        join_with(parts.update(parts.len() - 1, parts.last().push(c)), sep) == join_with(parts, sep).push(c),
{
    let updated = parts.update(parts.len() - 1, parts.last().push(c));
    if parts.len() == 1 {
    } else {
        assert(updated.drop_last() =~= parts.drop_last());
        assert(join_with(parts, sep) == join_with(parts.drop_last(), sep) + sep + parts.last());
        assert(join_with(parts, sep).push(c) =~= join_with(parts.drop_last(), sep) + sep + parts.last().push(c));
    }
}

proof fn lemma_join_push(parts: Seq<Seq<char>>, sep: Seq<char>, w: Seq<char>)
    requires
        parts.len() > 0,
    ensures
        join_with(parts.push(w), sep) == join_with(parts, sep) + sep + w,
{
    assert(parts.push(w).drop_last() =~= parts);
}

/// `s.split_whitespace().collect::<Vec<_>>().join(" ")`.
pub fn collapse_spaces(s: &str) -> (r: String)
    ensures
        r@ == collapse_whitespace(s@),
{
    let v = chars_of(s);
    let mut out = String::new();
    let mut any_word = false;
    let mut i: usize = 0;
    while i < v.len()
        invariant
            i <= v.len(),
            v@ == s@,
            out@ == collapse_whitespace(v@.take(i as int)),
            any_word == (words(v@.take(i as int)).len() > 0),
        decreases v.len() - i,
    {
        let c = v[i];
        let ghost prefix = v@.take(i as int);
        let ghost next = v@.take(i + 1);
        proof {
            assert(next.drop_last() =~= prefix);
            assert(next.last() == c);
            lemma_words_nonempty(prefix);
            if i > 0 {
                assert(next[i - 1] == v@[i - 1]);
                assert(prefix.last() == v@[i - 1]);
            }
        }
        if !white_space(c) {
            if i == 0 || white_space(v[i - 1]) {
                proof {
                    reveal_strlit(" ");
                    if any_word {
                        lemma_join_push(words(prefix), " "@, seq![c]);
                    } else {
                        assert(words(prefix).push(seq![c]) =~= seq![seq![c]]);
                    }
                }
                if any_word {
                    push_char(&mut out, ' ');
                }
                push_char(&mut out, c);
                proof {
                    if any_word {
                        assert(out@ =~= collapse_whitespace(prefix) + " "@ + seq![c]);
                    } else {
                        assert(out@ =~= seq![c]);
                    }
                }
                any_word = true;
            } else {
                proof {
                    lemma_join_extend_last(words(prefix), " "@, c);
                }
                push_char(&mut out, c);
            }
        }
        i = i + 1;
    }
    assert(v@.take(v.len() as int) =~= v@);
    out
}

} // verus!

verus! {

/// `parts.join(sep)`.
pub fn join_strings(parts: &Vec<String>, sep: &str) -> (r: String)
    ensures
        r@ == join_with(parts@.map_values(|t: String| t@), sep@),
{
    let ghost all = parts@.map_values(|t: String| t@);
    let mut r = String::new();
    let mut i: usize = 0;
    while i < parts.len()
        invariant
            i <= parts.len(),
            all == parts@.map_values(|t: String| t@),
            r@ == join_with(all.take(i as int), sep@),
        decreases parts.len() - i,
    {
        proof {
            assert(all.take(i + 1).drop_last() =~= all.take(i as int));
            assert(all.take(i + 1).last() == parts@[i as int]@);
        }
        if i > 0 {
            append_str(&mut r, sep);
        }
        append_str(&mut r, parts[i].as_str());
        proof {
            if i == 0 {
                assert(all.take(1) =~= seq![parts@[0]@]);
                assert(r@ =~= parts@[0]@);
            }
        }
        i = i + 1;
    }
    assert(all.take(parts.len() as int) =~= all);
    r
}

/// The attributes every selection reads, by position.
pub open spec fn attribute_names() -> Seq<Seq<char>> {
    seq!["alt"@, "title"@, "datetime"@, "content"@, "href"@, "data-href"@, "src"@]
}

pub open spec fn attr_alt(e: ElementView) -> Option<Seq<char>> {
    e.attributes[0]
}

pub open spec fn attr_title(e: ElementView) -> Option<Seq<char>> {
    e.attributes[1]
}

pub open spec fn attr_datetime(e: ElementView) -> Option<Seq<char>> {
    e.attributes[2]
}

pub open spec fn attr_content(e: ElementView) -> Option<Seq<char>> {
    e.attributes[3]
}

pub open spec fn attr_href(e: ElementView) -> Option<Seq<char>> {
    e.attributes[4]
}

pub open spec fn attr_data_href(e: ElementView) -> Option<Seq<char>> {
    e.attributes[5]
}

pub open spec fn attr_src(e: ElementView) -> Option<Seq<char>> {
    e.attributes[6]
}

/// The most opening parentheses a selector may hold: the selector parser
/// recurses once per nested functional pseudo-class (`:not(`, `:is(`,
/// `:has(`, ...), each of which opens one.
pub const MAX_SELECTOR_PARENS: usize = 32;

pub open spec fn is_opening_paren(c: char) -> bool {
    c == '('
}

/// How many opening parentheses the text holds.
pub open spec fn paren_count(s: Seq<char>) -> nat
    decreases s.len(),
{
    if s.len() == 0 {
        0
    } else {
        paren_count(s.drop_last()) + if is_opening_paren(s.last()) {
            1nat
        } else {
            0nat
        }
    }
}

/// Whether a selector holds few enough parentheses to be parsed; this
/// bounds how deeply its functional pseudo-classes can nest.
pub open spec fn selector_bounded(selector: Seq<char>) -> bool {
    paren_count(selector) <= MAX_SELECTOR_PARENS
}

/// Why a selector with too many parentheses is refused.
pub open spec fn too_many_parens() -> Seq<char> {
    "it holds more than 32 opening parentheses"@
}

/// Whether the selector holds at most `MAX_SELECTOR_PARENS` opening
/// parentheses.
pub fn is_bounded_selector(selector: &str) -> (r: bool)
    ensures
        r == selector_bounded(selector@),
{
    let v = chars_of(selector);
    let mut count: usize = 0;
    let mut i: usize = 0;
    while i < v.len()
        invariant
            v@ == selector@,
            i <= v.len(),
            count == paren_count(v@.take(i as int)),
            count <= MAX_SELECTOR_PARENS,
        decreases v.len() - i,
    {
        assert(v@.take(i + 1).drop_last() =~= v@.take(i as int));
        let c = v[i];
        if c == '(' {
            if count == MAX_SELECTOR_PARENS {
                proof {
                    lemma_paren_count_prefix(v@, i + 1);
                }
                return false;
            }
            count = count + 1;
        }
        i = i + 1;
    }
    assert(v@.take(v.len() as int) =~= v@);
    true
}

/// A prefix holds no more opening parentheses than the whole text.
proof fn lemma_paren_count_prefix(s: Seq<char>, k: int)
    requires
        0 <= k <= s.len(),
    ensures
        paren_count(s.take(k)) <= paren_count(s),
    decreases s.len() - k,
{
    if k < s.len() {
        lemma_paren_count_prefix(s, k + 1);
        assert(s.take(k + 1).drop_last() =~= s.take(k));
    } else {
        assert(s.take(k) =~= s);
    }
}

/// The elements `selector` matches in `document` (a fragment when
/// `fragment`), with the attributes of [`attribute_names`]. A selector with
/// more than `MAX_SELECTOR_PARENS` opening parentheses is refused unparsed.
pub open spec fn selection(document: Seq<char>, fragment: bool, selector: Seq<char>) -> Result<
    Seq<ElementView>,
    Seq<char>,
> {
    if !selector_bounded(selector) {
        Err(too_many_parens())
    } else {
        css_selection(document, fragment, selector, attribute_names())
    }
}

/// The message for a selector that does not parse.
pub open spec fn invalid_selector_message(selector: Seq<char>, error: Seq<char>) -> Seq<char> {
    "selector '"@ + selector + "' is invalid: "@ + error
}

/// Whether every matched element carries one value per attribute asked for.
pub open spec fn well_read(elements: Seq<ElementView>) -> bool {
    forall|i: int| 0 <= i < elements.len() ==> #[trigger] elements[i].attributes.len() == 7
}

/// Selects elements; a selector that does not parse is an invalid source
/// selector.
pub fn select(document: &str, fragment: bool, selector: &str) -> (r: Result<Vec<HtmlElement>, CrawlError>)
    ensures
        r matches Ok(v) ==> selection(document@, fragment, selector@) == Ok::<Seq<ElementView>, Seq<char>>(
            element_views(v@),
        ) && well_read(element_views(v@)),
        r matches Err(e) ==> (selection(document@, fragment, selector@) matches Err(m) && e
            == CrawlError::InvalidSourceSelectors(e->InvalidSourceSelectors_0)
            && e->InvalidSourceSelectors_0@ == invalid_selector_message(selector@, m)),
{
    let mut names: Vec<&str> = Vec::new();
    names.push("alt");
    names.push("title");
    names.push("datetime");
    names.push("content");
    names.push("href");
    names.push("data-href");
    names.push("src");
    proof {
        assert(str_views(names@) =~= attribute_names());
    }
    if !is_bounded_selector(selector) {
        let mut message = concat3("selector '", selector, "' is invalid: ");
        append_str(&mut message, "it holds more than 32 opening parentheses");
        return Err(CrawlError::InvalidSourceSelectors(message));
    }
    match select_elements(document, fragment, selector, names.as_slice()) {
        Ok(v) => Ok(v),
        Err(error) => {
            let mut message = concat3("selector '", selector, "' is invalid: ");
            append_str(&mut message, error.as_str());
            Err(CrawlError::InvalidSourceSelectors(message))
        },
    }
}

/// The text of an element: its text nodes joined by spaces with white space
/// collapsed, when anything is left.
pub open spec fn element_text_of(e: ElementView) -> Option<Seq<char>> {
    let v = collapse_whitespace(join_with(e.texts, " "@));
    if v.len() == 0 {
        None
    } else {
        Some(v)
    }
}

pub fn element_text(e: &HtmlElement) -> (r: Option<String>)
    ensures
        opt_view(r) == element_text_of(e@),
{
    let joined = join_strings(&e.texts, " ");
    let value = collapse_spaces(joined.as_str());
    if value.as_str().is_empty() {
        None
    } else {
        Some(value)
    }
}

/// The attribute an element's kind carries its text in: an image's `alt`
/// (else `title`), a time's `datetime`, a meta tag's `content`.
pub open spec fn special_text(e: ElementView) -> Option<Seq<char>> {
    if e.name == "img"@ {
        match attr_alt(e) {
            Some(a) => Some(a),
            None => attr_title(e),
        }
    } else if e.name == "time"@ {
        attr_datetime(e)
    } else if e.name == "meta"@ {
        attr_content(e)
    } else {
        None
    }
}

/// The text of a matched element: its special attribute trimmed when that
/// is not blank, else its element text.
pub open spec fn text_of_element(e: ElementView) -> Option<Seq<char>> {
    match special_text(e) {
        Some(v) if trim(v).len() > 0 => Some(trim(v)),
        _ => element_text_of(e),
    }
}

/// An element's link: `href`, else `data-href`, else `src`.
pub open spec fn link_of_element(e: ElementView) -> Option<Seq<char>> {
    match attr_href(e) {
        Some(v) => Some(v),
        None => match attr_data_href(e) {
            Some(v) => Some(v),
            None => attr_src(e),
        },
    }
}

fn attribute(e: &HtmlElement, i: usize) -> (r: Option<String>)
    requires
        i < e.attributes@.len(),
    ensures
        opt_view(r) == e@.attributes[i as int],
{
    match &e.attributes[i] {
        Some(v) => Some(owned(v.as_str())),
        None => None,
    }
}

fn name_is(e: &HtmlElement, name: &str) -> (r: bool)
    ensures
        r == (e.name@ == name@),
{
    crate::text::str_eq(e.name.as_str(), name)
}

pub fn text_of(e: &HtmlElement) -> (r: Option<String>)
    requires
        e@.attributes.len() == 7,
    ensures
        opt_view(r) == text_of_element(e@),
{
    let special = if name_is(e, "img") {
        match attribute(e, 0) {
            Some(a) => Some(a),
            None => attribute(e, 1),
        }
    } else if name_is(e, "time") {
        attribute(e, 2)
    } else if name_is(e, "meta") {
        attribute(e, 3)
    } else {
        None
    };
    match special {
        Some(v) => {
            let t = trimmed(v.as_str());
            if !t.as_str().is_empty() {
                return Some(t);
            }
        },
        None => {},
    }
    element_text(e)
}

pub fn link_of(e: &HtmlElement) -> (r: Option<String>)
    requires
        e@.attributes.len() == 7,
    ensures
        opt_view(r) == link_of_element(e@),
{
    match attribute(e, 4) {
        Some(v) => Some(v),
        None => match attribute(e, 5) {
            Some(v) => Some(v),
            None => attribute(e, 6),
        },
    }
}

} // verus!

verus! {

/// What `extract_text` finds: the text of the first matched element.
pub open spec fn first_text(elements: Seq<ElementView>) -> Option<Seq<char>> {
    if elements.len() == 0 {
        None
    } else {
        text_of_element(elements[0])
    }
}

/// What `extract_attribute` finds: the link of the first matched element.
pub open spec fn first_link(elements: Seq<ElementView>) -> Option<Seq<char>> {
    if elements.len() == 0 {
        None
    } else {
        link_of_element(elements[0])
    }
}

/// The text of the first element `selector` matches in the document.
pub fn extract_text(document: &str, selector: &str) -> (r: Result<Option<String>, CrawlError>)
    ensures
        r is Ok <==> selection(document@, false, selector@) is Ok,
        r matches Ok(t) ==> opt_view(t) == first_text(selection(document@, false, selector@)->Ok_0),
        r matches Err(e) ==> (selection(document@, false, selector@) matches Err(m) && e
            is InvalidSourceSelectors && e->InvalidSourceSelectors_0@ == invalid_selector_message(
            selector@,
            m,
        )),
{
    let elements = select(document, false, selector)?;
    if elements.len() == 0 {
        return Ok(None);
    }
    assert(element_views(elements@)[0] == elements@[0]@);
    Ok(text_of(&elements[0]))
}

/// The link of the first element `selector` matches in the document.
pub fn extract_attribute(document: &str, selector: &str) -> (r: Result<Option<String>, CrawlError>)
    ensures
        r is Ok <==> selection(document@, false, selector@) is Ok,
        r matches Ok(t) ==> opt_view(t) == first_link(selection(document@, false, selector@)->Ok_0),
        r matches Err(e) ==> (selection(document@, false, selector@) matches Err(m) && e
            is InvalidSourceSelectors && e->InvalidSourceSelectors_0@ == invalid_selector_message(
            selector@,
            m,
        )),
{
    let elements = select(document, false, selector)?;
    if elements.len() == 0 {
        return Ok(None);
    }
    assert(element_views(elements@)[0] == elements@[0]@);
    Ok(link_of(&elements[0]))
}

/// The first value that is not blank, trimmed.
pub open spec fn pick_of(values: Seq<Option<Seq<char>>>) -> Option<Seq<char>>
    decreases values.len(),
{
    if values.len() == 0 {
        None
    } else {
        match values[0] {
            Some(v) if trim(v).len() > 0 => Some(trim(v)),
            _ => pick_of(values.drop_first()),
        }
    }
}

/// The first candidate that is not blank, trimmed.
pub fn pick(values: Vec<Option<String>>) -> (r: Option<String>)
    ensures
        opt_view(r) == pick_of(values@.map_values(|o: Option<String>| opt_view(o))),
{
    let ghost all = values@.map_values(|o: Option<String>| opt_view(o));
    let mut i: usize = 0;
    assert(all.skip(0) =~= all);
    while i < values.len()
        invariant
            i <= values.len(),
            all == values@.map_values(|o: Option<String>| opt_view(o)),
            pick_of(all) == pick_of(all.skip(i as int)),
        decreases values.len() - i,
    {
        let ghost rest = all.skip(i as int);
        assert(rest[0] == opt_view(values@[i as int]));
        assert(rest.drop_first() =~= all.skip(i + 1));
        match &values[i] {
            Some(v) => {
                let t = trimmed(v.as_str());
                if !t.as_str().is_empty() {
                    return Some(t);
                }
            },
            None => {},
        }
        i = i + 1;
    }
    assert(all.skip(values.len() as int) =~= Seq::<Option<Seq<char>>>::empty());
    None
}

/// A link resolved against its page: already absolute links are kept,
/// others are joined to the base.
pub open spec fn absolute_of(base: Seq<char>, value: Seq<char>) -> Option<Seq<char>> {
    match parsed_url(value) {
        Some(u) => Some(u),
        None => joined_url(base, value),
    }
}

pub fn absolute_url(base: &str, value: &str) -> (r: Option<String>)
    ensures
        opt_view(r) == absolute_of(base@, value@),
{
    match url_parse(value) {
        Ok(u) => Some(u),
        Err(_) => match url_join(base, value) {
            Ok(u) => Some(u),
            Err(_) => None,
        },
    }
}

/// The text of an HTML fragment, with white space collapsed, when any.
pub open spec fn fragment_text_of(html: Seq<char>) -> Option<Seq<char>> {
    let v = collapse_whitespace(join_with(fragment_texts_of(html), " "@));
    if v.len() == 0 {
        None
    } else {
        Some(v)
    }
}

pub fn text_from_html(html: &str) -> (r: Option<String>)
    ensures
        opt_view(r) == fragment_text_of(html@),
{
    let texts = fragment_texts(html);
    let joined = join_strings(&texts, " ");
    let value = collapse_spaces(joined.as_str());
    if value.as_str().is_empty() {
        None
    } else {
        Some(value)
    }
}

} // verus!

verus! {

// --- Open Graph ------------------------------------------------------------------------

/// `meta[property='{property}'], meta[name='{property}']`.
pub open spec fn meta_selector(property: Seq<char>) -> Seq<char> {
    "meta[property='"@ + property + "'], meta[name='"@ + property + "']"@
}

/// The `content` of the first meta tag with the property (or name).
pub open spec fn og_meta(html: Seq<char>, property: Seq<char>) -> Option<Seq<char>> {
    match selection(html, false, meta_selector(property)) {
        Ok(es) => if es.len() > 0 {
            attr_content(es[0])
        } else {
            None
        },
        Err(_) => None,
    }
}

/// The trimmed text of the first element matched, when not blank.
pub open spec fn og_text(html: Seq<char>, selector: Seq<char>) -> Option<Seq<char>> {
    match selection(html, false, selector) {
        Ok(es) => if es.len() > 0 && trim(join_with(es[0].texts, " "@)).len() > 0 {
            Some(trim(join_with(es[0].texts, " "@)))
        } else {
            None
        },
        Err(_) => None,
    }
}

/// The attribute at position `i` of the first element matched.
pub open spec fn og_attribute(html: Seq<char>, selector: Seq<char>, i: int) -> Option<Seq<char>> {
    match selection(html, false, selector) {
        Ok(es) => if es.len() > 0 {
            es[0].attributes[i]
        } else {
            None
        },
        Err(_) => None,
    }
}

pub open spec fn resolved(page_url: Seq<char>, value: Option<Seq<char>>) -> Option<Seq<char>> {
    match value {
        Some(v) => absolute_of(page_url, v),
        None => None,
    }
}

/// The Open Graph metadata of a page, field by field.
pub open spec fn open_graph_fields(html: Seq<char>, page_url: Seq<char>) -> MetadataView {
    MetadataView {
        title: pick_of(seq![og_meta(html, "og:title"@), og_text(html, "title"@)]),
        description: pick_of(seq![og_meta(html, "og:description"@), og_meta(html, "description"@)]),
        image: resolved(page_url, pick_of(seq![og_meta(html, "og:image"@), og_attribute(html, "img"@, 6)])),
        url: resolved(
            page_url,
            pick_of(
                seq![
                    og_meta(html, "og:url"@),
                    og_attribute(html, "link[rel='canonical']"@, 4),
                    Some(page_url),
                ],
            ),
        ),
        author: pick_of(seq![og_meta(html, "article:author"@), og_meta(html, "og:article:author"@)]),
        published_at: pick_of(
            seq![og_meta(html, "article:published_time"@), og_meta(html, "og:article:published_time"@)],
        ),
        updated_at: pick_of(
            seq![og_meta(html, "article:modified_time"@), og_meta(html, "og:article:modified_time"@)],
        ),
    }
}

/// What `consume_html` extracts: nothing from a blank page, otherwise the
/// Open Graph fields when any is present.
pub open spec fn open_graph_of(html: Seq<char>, page_url: Seq<char>) -> Option<MetadataView> {
    if trim(html).len() == 0 {
        None
    } else {
        some_metadata(open_graph_fields(html, page_url))
    }
}

fn meta(html: &str, property: &str) -> (r: Option<String>)
    ensures
        opt_view(r) == og_meta(html@, property@),
{
    let mut selector = concat3("meta[property='", property, "'], meta[name='");
    append_str(&mut selector, property);
    append_str(&mut selector, "']");
    assert(selector@ =~= meta_selector(property@));
    match select(html, false, selector.as_str()) {
        Ok(es) => {
            if es.len() > 0 {
                assert(element_views(es@)[0] == es@[0]@);
                assert(element_views(es@)[0].attributes.len() == 7);
                attribute(&es[0], 3)
            } else {
                None
            }
        },
        Err(_) => None,
    }
}

fn first_text_trimmed(html: &str, selector: &str) -> (r: Option<String>)
    ensures
        opt_view(r) == og_text(html@, selector@),
{
    match select(html, false, selector) {
        Ok(es) => {
            if es.len() > 0 {
                assert(element_views(es@)[0] == es@[0]@);
                let joined = join_strings(&es[0].texts, " ");
                let value = trimmed(joined.as_str());
                if value.as_str().is_empty() {
                    None
                } else {
                    Some(value)
                }
            } else {
                None
            }
        },
        Err(_) => None,
    }
}

fn first_attribute(html: &str, selector: &str, i: usize) -> (r: Option<String>)
    requires
        i < 7,
    ensures
        opt_view(r) == og_attribute(html@, selector@, i as int),
{
    match select(html, false, selector) {
        Ok(es) => {
            if es.len() > 0 {
                assert(element_views(es@)[0] == es@[0]@);
                assert(element_views(es@)[0].attributes.len() == 7);
                attribute(&es[0], i)
            } else {
                None
            }
        },
        Err(_) => None,
    }
}

fn resolve(page_url: &str, value: Option<String>) -> (r: Option<String>)
    ensures
        opt_view(r) == resolved(page_url@, opt_view(value)),
{
    match value {
        Some(v) => absolute_url(page_url, v.as_str()),
        None => None,
    }
}

fn pick2(a: Option<String>, b: Option<String>) -> (r: Option<String>)
    ensures
        opt_view(r) == pick_of(seq![opt_view(a), opt_view(b)]),
{
    let mut v: Vec<Option<String>> = Vec::new();
    v.push(a);
    v.push(b);
    let r = pick(v);
    assert(v@.map_values(|o: Option<String>| opt_view(o)) =~= seq![opt_view(a), opt_view(b)]);
    r
}

/// Extracts Open Graph metadata from a page's HTML.
pub fn consume_html(html: &str, page_url: &str) -> (r: Option<ArticleMetadata>)
    ensures
        metadata_view(r) == open_graph_of(html@, page_url@),
{
    if trimmed(html).as_str().is_empty() {
        return None;
    }
    let title = pick2(meta(html, "og:title"), first_text_trimmed(html, "title"));
    let description = pick2(meta(html, "og:description"), meta(html, "description"));
    let image = resolve(page_url, pick2(meta(html, "og:image"), first_attribute(html, "img", 6)));
    let mut candidates: Vec<Option<String>> = Vec::new();
    candidates.push(meta(html, "og:url"));
    candidates.push(first_attribute(html, "link[rel='canonical']", 4));
    candidates.push(Some(owned(page_url)));
    let ghost urls = candidates@.map_values(|o: Option<String>| opt_view(o));
    let url = resolve(page_url, pick(candidates));
    let author = pick2(meta(html, "article:author"), meta(html, "og:article:author"));
    let published_at = pick2(
        meta(html, "article:published_time"),
        meta(html, "og:article:published_time"),
    );
    let updated_at = pick2(
        meta(html, "article:modified_time"),
        meta(html, "og:article:modified_time"),
    );
    let metadata = ArticleMetadata { url, title, author, description, image, published_at, updated_at };
    proof {
        assert(urls =~= seq![
            og_meta(html@, "og:url"@),
            og_attribute(html@, "link[rel='canonical']"@, 4),
            Some(page_url@),
        ]);
        assert(metadata@ == open_graph_fields(html@, page_url@));
    }
    if metadata.is_empty() {
        None
    } else {
        Some(metadata)
    }
}

} // verus!

verus! {

// --- What the Markdown converter accepts --------------------------------------------

/// The deepest element nesting a document may have before it is turned into
/// Markdown (the converter recurses once per level).
pub const MAX_MARKUP_DEPTH: i128 = 256;

/// How deep the walk is after its first `k` steps: entries count one up,
/// exits one down.
pub open spec fn walk_depth(walk: Seq<(bool, Seq<char>)>, k: int) -> int
    decreases k,
{
    if k <= 0 {
        0
    } else {
        walk_depth(walk, k - 1) + if walk[k - 1].0 {
            1int
        } else {
            -1int
        }
    }
}

/// Whether the document tree of `html` nests no deeper than
/// `MAX_MARKUP_DEPTH`.
pub open spec fn markup_shallow(html: Seq<char>) -> bool {
    let walk = tree_walk_of(html);
    forall|k: int| 0 <= k <= walk.len() ==> #[trigger] walk_depth(walk, k) <= MAX_MARKUP_DEPTH
}

/// Whether the elements below one named `name` see a list around them: a
/// list (or preformatted block) starts one, a table cell starts afresh
/// (the converter renders each cell on its own), anything else inherits.
pub open spec fn guard_after(parent: bool, name: Seq<char>) -> bool {
    if name == "ul"@ || name == "ol"@ || name == "menu"@ || name == "pre"@ {
        true
    } else if name == "td"@ || name == "th"@ {
        false
    } else {
        parent
    }
}

pub open spec fn top_guard(stack: Seq<bool>) -> bool {
    stack.len() > 0 && stack.last()
}

/// For each node open after the walk's first `k` steps, whether a list
/// surrounds what lies below it.
pub open spec fn guard_stack(walk: Seq<(bool, Seq<char>)>, k: int) -> Seq<bool>
    decreases k,
{
    if k <= 0 {
        Seq::empty()
    } else {
        let s = guard_stack(walk, k - 1);
        if walk[k - 1].0 {
            s.push(guard_after(top_guard(s), walk[k - 1].1))
        } else if s.len() > 0 {
            s.drop_last()
        } else {
            s
        }
    }
}

/// Whether every list item stands inside a list (within its table cell,
/// if any). The converter mishandles an item outside any list: it deletes
/// text from the start of the output and can then fail on an enclosing
/// element.
pub open spec fn items_in_lists(walk: Seq<(bool, Seq<char>)>) -> bool {
    forall|k: int|
        0 <= k < walk.len() && (#[trigger] walk[k]).0 && walk[k].1 == "li"@ ==> top_guard(
            guard_stack(walk, k),
        )
}

/// Whether `html` can be handed to the Markdown converter: its tree nests
/// at most `MAX_MARKUP_DEPTH` deep and its list items stand in lists.
pub open spec fn markup_convertible(html: Seq<char>) -> bool {
    markup_shallow(html) && items_in_lists(tree_walk_of(html))
}

fn is_list_name(name: &str) -> (r: bool)
    ensures
        r == (name@ == "ul"@ || name@ == "ol"@ || name@ == "menu"@ || name@ == "pre"@),
{
    str_eq(name, "ul") || str_eq(name, "ol") || str_eq(name, "menu") || str_eq(name, "pre")
}

fn is_cell_name(name: &str) -> (r: bool)
    ensures
        r == (name@ == "td"@ || name@ == "th"@),
{
    str_eq(name, "td") || str_eq(name, "th")
}

/// Whether the document can be handed to the Markdown converter.
pub fn is_convertible(html: &str) -> (r: bool)
    ensures
        r == markup_convertible(html@),
{
    let walk = document_tree_walk(html);
    let ghost w = tree_walk_of(html@);
    let mut depth: i128 = 0;
    let mut guards: Vec<bool> = Vec::new();
    let mut i: usize = 0;
    while i < walk.len()
        invariant
            w == tree_walk_of(html@),
            views_walk(walk@) == w,
            walk@.len() == w.len(),
            i <= walk.len(),
            depth == walk_depth(w, i as int),
            -(i as int) <= depth,
            guards@ == guard_stack(w, i as int),
            forall|k: int| 0 <= k <= i ==> #[trigger] walk_depth(w, k) <= MAX_MARKUP_DEPTH,
            forall|k: int|
                0 <= k < i && (#[trigger] w[k]).0 && w[k].1 == "li"@ ==> top_guard(guard_stack(w, k)),
        decreases walk.len() - i,
    {
        assert(w[i as int] == (walk@[i as int].0, walk@[i as int].1@));
        let top = guards.len() > 0 && guards[guards.len() - 1];
        if walk[i].0 {
            if str_eq(walk[i].1.as_str(), "li") && !top {
                return false;
            }
            let g = if is_list_name(walk[i].1.as_str()) {
                true
            } else if is_cell_name(walk[i].1.as_str()) {
                false
            } else {
                top
            };
            guards.push(g);
            depth = depth + 1;
        } else {
            if guards.len() > 0 {
                guards.pop();
            }
            depth = depth - 1;
        }
        i = i + 1;
        if depth > MAX_MARKUP_DEPTH {
            assert(walk_depth(w, i as int) > MAX_MARKUP_DEPTH);
            return false;
        }
    }
    true
}

/// The characters of each step of a tree walk.
pub open spec fn views_walk(walk: Seq<(bool, String)>) -> Seq<(bool, Seq<char>)> {
    walk.map_values(|e: (bool, String)| (e.0, e.1@))
}

/// The Markdown of a document, when the converter can take it.
pub open spec fn markdown_if_convertible(html: Seq<char>) -> Option<Seq<char>> {
    if markup_convertible(html) {
        Some(markdown_of(html))
    } else {
        None
    }
}

/// The document as Markdown; `None` when it nests too deeply or holds a
/// list item outside any list.
pub fn markdown(html: &str) -> (r: Option<String>)
    ensures
        opt_view(r) == markdown_if_convertible(html@),
{
    if is_convertible(html) {
        Some(html_to_markdown(html))
    } else {
        None
    }
}

} // verus!
