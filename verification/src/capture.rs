//! Values captured from the output of commands.

use crate::config::CaptureView;
use crate::demo::CaptureRef;
use crate::json_path::{extract_json_path, extracted};
use crate::pattern::{captured_group, compile, compiled, group_text};
use crate::text::{join, option_view};
use vstd::prelude::*;

verus! {

/// What came of a capture.
pub enum Captured {
    /// A value.
    Value(String),
    /// The JSON path led nowhere.
    JsonMiss,
    /// The pattern is no regular expression.
    BadPattern,
    /// The pattern did not match, or there was nothing to look for.
    Nothing,
}

/// The contents of a [`Captured`].
pub enum CapturedView {
    Value(Seq<char>),
    JsonMiss,
    BadPattern,
    Nothing,
}

impl View for Captured {
    type V = CapturedView;

    open spec fn view(&self) -> CapturedView {
        match *self {
            Captured::Value(value) => CapturedView::Value(value@),
            Captured::JsonMiss => CapturedView::JsonMiss,
            Captured::BadPattern => CapturedView::BadPattern,
            Captured::Nothing => CapturedView::Nothing,
        }
    }
}

/// What comes of looking for a JSON path.
pub open spec fn path_capture(found: Option<Seq<char>>) -> CapturedView {
    match found {
        Some(value) => CapturedView::Value(value),
        None => CapturedView::JsonMiss,
    }
}

/// What comes of looking for a pattern that is a regular expression.
pub open spec fn pattern_capture(found: Option<Seq<char>>) -> CapturedView {
    match found {
        Some(value) => CapturedView::Value(value),
        None => CapturedView::Nothing,
    }
}

/// What a capture takes: what its JSON path picks out of `json`, if it has one; otherwise group
/// one of its pattern's match in `searched`.
pub open spec fn captured_from(
    capture: CaptureView,
    json: Seq<char>,
    searched: Seq<char>,
) -> CapturedView {
    match (capture.json_path, capture.pattern) {
        (Some(path), _) => path_capture(extracted(json, path)),
        (None, Some(pattern)) => match compiled(pattern) {
            Ok(regex) => pattern_capture(group_text(regex, searched, 1)),
            Err(_) => CapturedView::BadPattern,
        },
        (None, None) => CapturedView::Nothing,
    }
}

/// The complaint that a failed capture prints.
pub open spec fn capture_complaint(capture: CaptureView, captured: CapturedView) -> Option<
    Seq<char>,
> {
    match (captured, capture.json_path, capture.pattern) {
        (CapturedView::JsonMiss, Some(path), _) => Some(
            "[demonator] json_path '"@ + path + "' did not match\n"@,
        ),
        (CapturedView::BadPattern, _, Some(pattern)) => Some(
            "[demonator] invalid capture pattern: "@ + pattern + "\n"@,
        ),
        _ => None,
    }
}

/// What comes of looking for a JSON path, where this was found.
pub fn capture_by_path(found: Option<String>) -> (captured: Captured)
    ensures
        captured@ == path_capture(option_view(found)),
{
    match found {
        Some(value) => Captured::Value(value),
        None => Captured::JsonMiss,
    }
}

/// What comes of looking for a pattern that is a regular expression, where this was found.
pub fn capture_by_pattern(found: Option<String>) -> (captured: Captured)
    ensures
        captured@ == pattern_capture(option_view(found)),
{
    match found {
        Some(value) => Captured::Value(value),
        None => Captured::Nothing,
    }
}

/// Takes a capture out of a command's output.
pub fn take_capture(capture: &CaptureRef, json: &str, searched: &str) -> (captured: Captured)
    ensures
        captured@ == captured_from(capture@, json@, searched@),
{
    if let Some(path) = &capture.json_path {
        return capture_by_path(extract_json_path(json, path.as_str()));
    }
    if let Some(pattern) = &capture.pattern {
        return match compile(pattern.as_str()) {
            Ok(regex) => capture_by_pattern(captured_group(&regex, searched, 1)),
            Err(_) => Captured::BadPattern,
        };
    }
    Captured::Nothing
}

/// The complaint that a failed capture prints.
pub fn complain(capture: &CaptureRef, captured: &Captured) -> (complaint: Option<String>)
    ensures
        option_view(complaint) == capture_complaint(capture@, captured@),
{
    match captured {
        Captured::JsonMiss => match &capture.json_path {
            Some(path) => {
                let mut text = join("[demonator] json_path '", path.as_str());
                text.append("' did not match\n");
                Some(text)
            },
            None => None,
        },
        Captured::BadPattern => match &capture.pattern {
            Some(pattern) => {
                let mut text = join("[demonator] invalid capture pattern: ", pattern.as_str());
                text.append("\n");
                Some(text)
            },
            None => None,
        },
        Captured::Value(_) => None,
        Captured::Nothing => None,
    }
}

}
