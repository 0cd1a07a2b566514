//! Theme colors and labels keyed by urgency category.

use vstd::prelude::*;

use crate::color::Color;
use crate::text::str_eq;

verus! {

/// Warm theme palette for the kiosk display.
pub struct Theme;

impl Theme {
    /// Get the urgency color from its category string: coral for
    /// overdue, amber for today, gold for tomorrow, mint for the week,
    /// lavender otherwise.
    pub fn urgency_color(urgency: &str) -> (c: Color)
        ensures
            c == if urgency@ == "overdue"@ {
                Color { r: 255, g: 123, b: 123 }
            } else if urgency@ == "today"@ {
                Color { r: 255, g: 184, b: 107 }
            } else if urgency@ == "tomorrow"@ {
                Color { r: 255, g: 204, b: 128 }
            } else if urgency@ == "week"@ {
                Color { r: 125, g: 211, b: 168 }
            } else {
                Color { r: 168, g: 180, b: 255 }
            },
    {
        if str_eq(urgency, "overdue") {
            Color::new(255, 123, 123)
        } else if str_eq(urgency, "today") {
            Color::new(255, 184, 107)
        } else if str_eq(urgency, "tomorrow") {
            Color::new(255, 204, 128)
        } else if str_eq(urgency, "week") {
            Color::new(125, 211, 168)
        } else {
            Color::new(168, 180, 255)
        }
    }

    /// Get the urgency label, in friendly language.
    pub fn urgency_label(urgency: &str) -> (r: &'static str)
        ensures
            r@ == if urgency@ == "overdue"@ {
                "OVERDUE"@
            } else if urgency@ == "today"@ {
                "TODAY!"@
            } else if urgency@ == "tomorrow"@ {
                "TOMORROW"@
            } else if urgency@ == "week"@ {
                "THIS WEEK"@
            } else {
                "COMING UP"@
            },
    {
        if str_eq(urgency, "overdue") {
            "OVERDUE"
        } else if str_eq(urgency, "today") {
            "TODAY!"
        } else if str_eq(urgency, "tomorrow") {
            "TOMORROW"
        } else if str_eq(urgency, "week") {
            "THIS WEEK"
        } else {
            "COMING UP"
        }
    }
}

/// Get the urgency label in its plain, all-caps form.
pub fn urgency_label(urgency: &str) -> (r: &'static str)
    ensures
        r@ == if urgency@ == "overdue"@ {
            "OVERDUE"@
        } else if urgency@ == "today"@ {
            "TODAY"@
        } else if urgency@ == "tomorrow"@ {
            "TOMORROW"@
        } else if urgency@ == "week"@ {
            "THIS WEEK"@
        } else {
            "UPCOMING"@
        },
{
    if str_eq(urgency, "overdue") {
        "OVERDUE"
    } else if str_eq(urgency, "today") {
        "TODAY"
    } else if str_eq(urgency, "tomorrow") {
        "TOMORROW"
    } else if str_eq(urgency, "week") {
        "THIS WEEK"
    } else {
        "UPCOMING"
    }
}

} // verus!
