use hourly_forecast::document::{Document, InvalidSelector};
use hourly_forecast::field::{selector_of, Field};

const FIELDS: [Field; 10] = [
    Field::Hour,
    Field::Icon,
    Field::Temperature,
    Field::Windchill,
    Field::WindDirection,
    Field::WindSpeed,
    Field::WindGust,
    Field::PrecipProbability,
    Field::PrecipAmount,
    Field::Night,
];

fn texts(cells: &[&str]) -> Vec<String> {
    cells.iter().map(|cell| cell.to_string()).collect()
}

#[test]
fn texts_come_in_the_order_of_the_page() {
    let document = Document::parse("<ul><li>one</li><li>two</li><li>three</li></ul>");
    assert_eq!(document.texts("li"), Ok(texts(&["one", "two", "three"])));
}

#[test]
fn text_of_an_element_joins_all_text_below_it() {
    let document = Document::parse("<p>a<b>b<i>c</i></b>d</p><p></p>");
    assert_eq!(document.texts("p"), Ok(texts(&["abcd", ""])));
    assert_eq!(document.texts("b"), Ok(texts(&["bc"])));
}

#[test]
fn text_is_not_trimmed_and_entities_are_resolved() {
    let document = Document::parse("<td> 5&deg;C\n</td>");
    assert_eq!(document.texts("td"), Ok(Vec::new()));
    let document = Document::parse("<table><tr><td> 5&deg;C\n</td></tr></table>");
    assert_eq!(document.texts("td"), Ok(texts(&[" 5\u{b0}C\n"])));
}

#[test]
fn selector_without_a_match_gives_nothing() {
    let document = Document::parse("<p>text</p>");
    assert_eq!(document.texts("#hourly_forecast td"), Ok(Vec::new()));
    assert_eq!(document.attributes("img", "src"), Ok(Vec::new()));
    assert_eq!(document.attribute_pairs("img", "src", "title"), Ok(Vec::new()));
}

#[test]
fn attributes_are_read_verbatim_or_reported_absent() {
    let document = Document::parse(
        "<img src=' a.svg ' title='Clear &amp; calm'><img src=''><img title=rain class='x y'>",
    );
    assert_eq!(
        document.attributes("img", "src"),
        Ok(vec![Some(" a.svg ".to_string()), Some(String::new()), None])
    );
    assert_eq!(
        document.attributes("img", "class"),
        Ok(vec![None, None, Some("x y".to_string())])
    );
    assert_eq!(
        document.attribute_pairs("img", "src", "title"),
        Ok(vec![
            (Some(" a.svg ".to_string()), Some("Clear & calm".to_string())),
            (Some(String::new()), None),
            (None, Some("rain".to_string())),
        ])
    );
}

#[test]
fn class_selectors_match_whole_class_tokens() {
    let document = Document::parse(
        "<div class='windspeeds'><i class='glyph winddir'>N</i><i class='glyph'>x</i></div>\
         <div class='windspeed'><i class='winddir glyph big'>S</i></div>",
    );
    assert_eq!(document.texts(".windspeeds .glyph.winddir"), Ok(texts(&["N"])));
    assert_eq!(document.texts(".windspeed .glyph.winddir"), Ok(texts(&["S"])));
    assert_eq!(document.texts(".glyph.winddir"), Ok(texts(&["N", "S"])));
}

#[test]
fn invalid_selector_is_reported() {
    let document = Document::parse("<p>text</p>");
    for selector in ["", "td[", "..x", "a >", ":no-such-pseudo-class"] {
        assert_eq!(document.texts(selector), Err(InvalidSelector), "{selector:?}");
        assert_eq!(document.attributes(selector, "class"), Err(InvalidSelector), "{selector:?}");
        assert_eq!(
            document.attribute_pairs(selector, "src", "title"),
            Err(InvalidSelector),
            "{selector:?}"
        );
    }
}

#[test]
fn selector_of_every_field_compiles() {
    let document = Document::parse("");
    for field in FIELDS {
        assert_eq!(document.texts(selector_of(field)), Ok(Vec::new()), "{field:?}");
    }
}

#[test]
fn same_markup_gives_the_same_answers() {
    let markup = "<table><tr><td class=a>1</td><td class=b>2</td></tr></table>";
    let first = Document::parse(markup);
    let second = Document::parse(markup);
    assert_eq!(first.texts("td"), second.texts("td"));
    assert_eq!(first.attributes("td", "class"), second.attributes("td", "class"));
    assert_eq!(first.texts("td"), first.texts("td"));
}
