//! The delegated click handler's decision.
use vstd::prelude::*;
use vstd::string::StringExecFns;
use crate::text::str_eq;
use crate::view::{attr_value, Element};

verus! {

/// A diagnostic entry: a fixed tag and the clicked cell's text. A click that
/// yields one also has its default action and its propagation suppressed.
pub struct ClickReport {
    pub tag: String,
    pub text: String,
}

/// The text a click on an element reports: for a table cell, its `data-text`
/// (empty when it has none); for any other element, nothing.
pub open spec fn click_text(class_name: Seq<char>, data_text: Option<Seq<char>>) -> Option<
    Seq<char>,
> {
    if class_name == "TableCell"@ {
        Some(
            match data_text {
                Some(t) => t,
                None => seq![],
            },
        )
    } else {
        None
    }
}

/// The characters of an optional string.
pub open spec fn text_of(o: Option<&str>) -> Option<Seq<char>> {
    match o {
        Some(t) => Some(t@),
        None => None,
    }
}

/// Decides what a click on an element of class `class_name`, whose
/// `data-text` attribute is `data_text`, does: a table cell gives one report
/// tagged `Click` with the cell's text, and the click stops there; any other
/// element gives none, and the click goes on as usual.
pub fn handle_click(class_name: &str, data_text: Option<&str>) -> (r: Option<ClickReport>)
    ensures
        r.is_some() == click_text(class_name@, text_of(data_text)).is_some(),
        r.is_some() ==> r.unwrap().tag@ == "Click"@ && Some(r.unwrap().text@) == click_text(
            class_name@,
            text_of(data_text),
        ),
{
    if str_eq(class_name, "TableCell") {
        let text = match data_text {
            Some(t) => String::from_str(t),
            None => String::new(),
        };
        Some(ClickReport { tag: String::from_str("Click"), text })
    } else {
        None
    }
}

/// The decision of `handle_click` for a click on `target`.
pub fn dispatch_click(target: &Element) -> (r: Option<ClickReport>)
    ensures
        r.is_some() == click_text(target@.class_name, attr_value(target@.attrs, "data-text"@)).is_some(),
        r.is_some() ==> r.unwrap().tag@ == "Click"@ && Some(r.unwrap().text@) == click_text(
            target@.class_name,
            attr_value(target@.attrs, "data-text"@),
        ),
{
    let data_text = target.get_attribute("data-text");
    match data_text {
        Some(t) => handle_click(target.class_name.as_str(), Some(t.as_str())),
        None => handle_click(target.class_name.as_str(), None),
    }
}

} // verus!
