//! The page as a document: markup is parsed and queried with CSS selectors by
//! the `scraper` crate. What `scraper` returns is taken on trust and given a
//! name; the queries built on it are verified against those names.

use vstd::prelude::*;
use scraper::error::SelectorErrorKind;
use scraper::{ElementRef, Html, Selector};

verus! {

/// `scraper::Html`, a parsed document. Nothing of its inside is visible here.
#[verifier::external_type_specification]
#[verifier::external_body]
pub struct ExHtml(scraper::Html);

/// `scraper::Selector`, a compiled selector group. Nothing of its inside is
/// visible here.
#[verifier::external_type_specification]
#[verifier::external_body]
pub struct ExSelector(scraper::Selector);

/// `scraper::error::SelectorErrorKind`, why a selector did not compile.
/// Nothing of its inside is visible here.
#[verifier::external_type_specification]
#[verifier::external_body]
pub struct ExSelectorErrorKind(scraper::error::SelectorErrorKind);

/// `scraper::ElementRef`, a reference to one element of a document. Nothing
/// of its inside is visible here.
#[verifier::external_type_specification]
#[verifier::external_body]
pub struct ExElementRef<'a>(scraper::ElementRef<'a>);

/// The document that `scraper::Html::parse_document` makes of `markup`.
pub uninterp spec fn parsed_document(markup: Seq<char>) -> Html;

/// What `scraper::Selector::parse` makes of `text`: the compiled selector, or
/// why there is none.
pub uninterp spec fn compiled_selector(text: Seq<char>) -> Result<Selector, SelectorErrorKind>;

/// The elements that `scraper::Html::select` finds for `selector` in
/// `document`, in the order in which it yields them.
pub uninterp spec fn selected_elements(document: Html, selector: Selector) -> Seq<
    ElementRef<'static>,
>;

/// The text inside `element`: what the text nodes below it hold, joined in
/// the order in which `scraper::ElementRef::text` yields them.
pub uninterp spec fn element_text(element: ElementRef) -> Seq<char>;

/// The value that `scraper::ElementRef::attr` finds for the attribute `name`
/// of `element`, if the element has that attribute.
pub uninterp spec fn element_attr(element: ElementRef, name: Seq<char>) -> Option<Seq<char>>;

/// `scraper::Html::parse_document` parses a string of HTML as a document. It
/// does not fail: markup with errors gives a document all the same. The
/// contract claims only that the document depends on the markup alone.
pub assume_specification[ scraper::Html::parse_document ](document: &str) -> (html: scraper::Html)
    ensures
        html == parsed_document(document@),
;

/// `scraper::Selector::parse` compiles a CSS selector group, or says why the
/// text is none. The contract claims only that the outcome depends on the
/// text alone.
pub assume_specification[ scraper::Selector::parse ](selectors: &str) -> (compiled: Result<
    scraper::Selector,
    scraper::error::SelectorErrorKind,
>)
    ensures
        compiled == compiled_selector(selectors@),
;

/// `scraper::ElementRef::attr` returns the value of an attribute of the
/// element, `None` where the element has no such attribute. The contract
/// claims only that the value depends on the element and the name alone.
pub assume_specification<'a>[ scraper::ElementRef::<'a>::attr ](
    element: &scraper::ElementRef<'a>,
    attr: &str,
) -> (value: Option<&'a str>)
    ensures
        value.deep_view() == element_attr(*element, attr@),
;

/// Calls `scraper::Html::select` and collects what the iterator yields: the
/// elements of the document that match the selector. The contract claims only
/// that they depend on the document and the selector alone.
#[verifier::external_body]
fn select_elements<'a>(document: &'a Html, selector: &Selector) -> (elements: Vec<ElementRef<'a>>)
    ensures
        elements@ == selected_elements(*document, *selector),
{
    document.select(selector).collect()
}

/// Calls `scraper::ElementRef::text` and joins what the iterator yields: the
/// text nodes below the element. The contract claims only that the text
/// depends on the element alone.
#[verifier::external_body]
fn read_text(element: &ElementRef) -> (text: String)
    ensures
        text@ == element_text(*element),
{
    element.text().collect()
}

/// A selector that is no valid CSS selector group.
#[derive(Debug, Clone, Copy, PartialEq, Eq, Structural)]
pub struct InvalidSelector;

/// The elements of `document` that the selector written as `selector`
/// matches, where that text compiles.
pub open spec fn matching(document: Html, selector: Seq<char>) -> Seq<ElementRef<'static>> {
    selected_elements(document, compiled_selector(selector)->Ok_0)
}

/// The texts of `elements`, one by one.
pub open spec fn texts_of(elements: Seq<ElementRef<'static>>) -> Seq<Seq<char>> {
    Seq::new(elements.len(), |i: int| element_text(elements[i]))
}

/// The values of the attribute `name` of `elements`, one by one.
pub open spec fn attributes_of(elements: Seq<ElementRef<'static>>, name: Seq<char>) -> Seq<
    Option<Seq<char>>,
> {
    Seq::new(elements.len(), |i: int| element_attr(elements[i], name))
}

/// The values of the attributes `first` and `second` of `elements`, one by one.
pub open spec fn attribute_pairs_of(
    elements: Seq<ElementRef<'static>>,
    first: Seq<char>,
    second: Seq<char>,
) -> Seq<(Option<Seq<char>>, Option<Seq<char>>)> {
    Seq::new(
        elements.len(),
        |i: int| (element_attr(elements[i], first), element_attr(elements[i], second)),
    )
}

/// An attribute value as a string of its own.
fn owned(value: Option<&str>) -> (copy: Option<String>)
    ensures
        copy.deep_view() == value.deep_view(),
{
    match value {
        Some(text) => Some(text.to_owned()),
        None => None,
    }
}

/// A parsed page, ready to be queried with selectors.
#[derive(Debug)]
pub struct Document {
    html: Html,
}

impl View for Document {
    type V = Html;

    closed spec fn view(&self) -> Html {
        self.html
    }
}

impl Document {
    /// Parses `markup` as an HTML document. Parsing is as forgiving as a
    /// browser: markup with errors gives a document all the same.
    pub fn parse(markup: &str) -> (document: Document)
        ensures
            document@ == parsed_document(markup@),
    {
        Document { html: scraper::Html::parse_document(markup) }
    }

    /// Finds the elements that `selector` matches. Fails if `selector` does
    /// not compile.
    fn select<'a>(&'a self, selector: &str) -> (result: Result<
        Vec<ElementRef<'a>>,
        InvalidSelector,
    >)
        ensures
            result is Ok == compiled_selector(selector@) is Ok,
            result matches Ok(elements) ==> elements@ == matching(self@, selector@),
    {
        match scraper::Selector::parse(selector) {
            Ok(compiled) => Ok(select_elements(&self.html, &compiled)),
            Err(_) => Err(InvalidSelector),
        }
    }

    /// Reads the text of every element that `selector` matches, in the order
    /// of the matches. Fails if `selector` does not compile.
    pub fn texts(&self, selector: &str) -> (result: Result<Vec<String>, InvalidSelector>)
        ensures
            result is Ok == compiled_selector(selector@) is Ok,
            result matches Ok(texts) ==> texts.deep_view() == texts_of(
                matching(self@, selector@),
            ),
    {
        let elements = self.select(selector)?;
        let mut texts: Vec<String> = Vec::new();
        let mut i: usize = 0;
        while i < elements.len()
            invariant
                i <= elements.len(),
                texts.len() == i,
                forall|j: int| 0 <= j < i ==> (#[trigger] texts[j])@ == element_text(elements[j]),
            decreases elements.len() - i,
        {
            texts.push(read_text(&elements[i]));
            i += 1;
        }
        assert(texts.deep_view() =~= texts_of(elements@));
        Ok(texts)
    }

    /// Reads the attribute `name` of every element that `selector` matches, in
    /// the order of the matches: `None` for an element without it. Fails if
    /// `selector` does not compile.
    pub fn attributes(&self, selector: &str, name: &str) -> (result: Result<
        Vec<Option<String>>,
        InvalidSelector,
    >)
        ensures
            result is Ok == compiled_selector(selector@) is Ok,
            result matches Ok(values) ==> values.deep_view() == attributes_of(
                matching(self@, selector@),
                name@,
            ),
    {
        let elements = self.select(selector)?;
        let mut values: Vec<Option<String>> = Vec::new();
        let mut i: usize = 0;
        while i < elements.len()
            invariant
                i <= elements.len(),
                values.len() == i,
                forall|j: int|
                    0 <= j < i ==> (#[trigger] values[j]).deep_view() == element_attr(
                        elements[j],
                        name@,
                    ),
            decreases elements.len() - i,
        {
            values.push(owned(elements[i].attr(name)));
            i += 1;
        }
        assert(values.deep_view() =~= attributes_of(elements@, name@));
        Ok(values)
    }

    /// Reads the attributes `first` and `second` of every element that
    /// `selector` matches, in the order of the matches: `None` for an
    /// attribute that an element does not have. Fails if `selector` does not
    /// compile.
    pub fn attribute_pairs(&self, selector: &str, first: &str, second: &str) -> (result: Result<
        Vec<(Option<String>, Option<String>)>,
        InvalidSelector,
    >)
        ensures
            result is Ok == compiled_selector(selector@) is Ok,
            result matches Ok(pairs) ==> pairs.deep_view() == attribute_pairs_of(
                matching(self@, selector@),
                first@,
                second@,
            ),
    {
        let elements = self.select(selector)?;
        let mut pairs: Vec<(Option<String>, Option<String>)> = Vec::new();
        let mut i: usize = 0;
        while i < elements.len()
            invariant
                i <= elements.len(),
                pairs.len() == i,
                forall|j: int|
                    0 <= j < i ==> (#[trigger] pairs[j]).deep_view() == (
                        element_attr(elements[j], first@),
                        element_attr(elements[j], second@),
                    ),
            decreases elements.len() - i,
        {
            let element = &elements[i];
            pairs.push((owned(element.attr(first)), owned(element.attr(second))));
            i += 1;
        }
        assert(pairs.deep_view() =~= attribute_pairs_of(elements@, first@, second@));
        Ok(pairs)
    }
}

} // verus!
