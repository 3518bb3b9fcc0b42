//! Rendering of an issue's priority number as a short label.
//!
//! The urgent, high and low labels pass through the terminal-coloring
//! crate, which may or may not wrap them in color codes depending on the
//! environment; either way the label text itself stays inside the result.

use colored::Colorize;
use vstd::prelude::*;

use crate::text::contains_sub;

verus! {

use vstd::string::StringExecFns;

/// Relies on colored's `Colorize::red` and the rendering of the colored
/// string: the input is wrapped in color codes when coloring is active
/// and left alone otherwise, so input without escape characters appears
/// verbatim inside the result.
#[verifier::external_body]
fn paint_red(s: &str) -> (r: String)
    requires
        forall|i: int| 0 <= i < s@.len() ==> s@[i] as u32 != 27,
    ensures
        contains_sub(r@, s@),
{
    s.red().to_string()
}

/// Relies on colored's `Colorize::yellow`, as [`paint_red`] relies on
/// `red`.
#[verifier::external_body]
fn paint_yellow(s: &str) -> (r: String)
    requires
        forall|i: int| 0 <= i < s@.len() ==> s@[i] as u32 != 27,
    ensures
        contains_sub(r@, s@),
{
    s.yellow().to_string()
}

/// Relies on colored's `Colorize::dimmed`, as [`paint_red`] relies on
/// `red`.
#[verifier::external_body]
fn paint_dimmed(s: &str) -> (r: String)
    requires
        forall|i: int| 0 <= i < s@.len() ==> s@[i] as u32 != 27,
    ensures
        contains_sub(r@, s@),
{
    s.dimmed().to_string()
}

/// Render a priority number: urgent in red, high in yellow, low dimmed,
/// normal plain, and a dash for everything unset or out of range.
pub fn priority_to_string(priority: Option<i64>) -> (r: String)
    ensures
        priority == Option::Some(1i64) ==> contains_sub(r@, "Urgent"@),
        priority == Option::Some(2i64) ==> contains_sub(r@, "High"@),
        priority == Option::Some(3i64) ==> r@ == "Normal"@,
        priority == Option::Some(4i64) ==> contains_sub(r@, "Low"@),
        match priority {
            Option::Some(p) => !(1 <= p <= 4) ==> r@ == "-"@,
            Option::None => r@ == "-"@,
        },
{
    proof {
        reveal_strlit("Urgent");
        reveal_strlit("High");
        reveal_strlit("Low");
    }
    match priority {
        Option::Some(p) => {
            if p == 1 {
                paint_red("Urgent")
            } else if p == 2 {
                paint_yellow("High")
            } else if p == 3 {
                String::from_str("Normal")
            } else if p == 4 {
                paint_dimmed("Low")
            } else {
                String::from_str("-")
            }
        },
        Option::None => String::from_str("-"),
    }
}

} // verus!
