//! Voice command results: the structured action a voice server returns,
//! and the framing of the request body that asks for one. The network
//! exchange itself is the host's business.

use vstd::prelude::*;

use crate::models::RecurrenceType;

verus! {

/// Voice command action returned by the server (task creation only).
#[derive(Debug)]
pub struct VoiceAction {
    /// Action type: "create" or "none".
    pub action: String,
    /// Task name extracted from speech.
    pub task_name: String,
    /// Recurrence in days (e.g. 3 = every 3 days, 7 = weekly).
    pub recurrence_days: Option<u32>,
    /// Human-readable message to show on screen.
    pub message: String,
}

/// The action to assume when the server names none.
pub fn default_action() -> (r: String)
    ensures
        r@ == "none"@,
{
    String::from_str("none")
}

/// The recurrence that a day count denotes: whole years, else whole
/// months of 30 days, else whole weeks, else plain days (at least one).
pub open spec fn spec_recurrence(days: Option<int>) -> (RecurrenceType, int) {
    match days {
        Some(d) => if d >= 365 && d % 365 == 0 {
            (RecurrenceType::Yearly, d / 365)
        } else if d >= 30 && d % 30 == 0 {
            (RecurrenceType::Monthly, d / 30)
        } else if d >= 7 && d % 7 == 0 {
            (RecurrenceType::Weekly, d / 7)
        } else if d >= 1 {
            (RecurrenceType::Daily, d)
        } else {
            (RecurrenceType::Daily, 1)
        },
        None => (RecurrenceType::Daily, 1),
    }
}

impl VoiceAction {
    /// Parse `recurrence_days` into a recurrence type and value.
    pub fn recurrence(&self) -> (r: (RecurrenceType, u32))
        ensures
            r.0 == spec_recurrence(
                match self.recurrence_days {
                    Some(d) => Some(d as int),
                    None => None,
                },
            ).0,
            r.1 as int == spec_recurrence(
                match self.recurrence_days {
                    Some(d) => Some(d as int),
                    None => None,
                },
            ).1,
    {
        match self.recurrence_days {
            Some(days) => {
                if days >= 365 && days % 365 == 0 {
                    (RecurrenceType::Yearly, days / 365)
                } else if days >= 30 && days % 30 == 0 {
                    (RecurrenceType::Monthly, days / 30)
                } else if days >= 7 && days % 7 == 0 {
                    (RecurrenceType::Weekly, days / 7)
                } else if days >= 1 {
                    (RecurrenceType::Daily, days)
                } else {
                    (RecurrenceType::Daily, 1)
                }
            },
            None => (RecurrenceType::Daily, 1),
        }
    }
}

/// Errors of the voice pipeline.
#[derive(Debug)]
pub enum VoiceError {
    Connection(String),
    ServerError(u16),
    ParseError(String),
}

/// A character sequence with JSON string escaping applied to backslashes
/// and double quotes.
pub open spec fn escape_chars(s: Seq<char>) -> Seq<char>
    decreases s.len(),
{
    if s.len() == 0 {
        Seq::empty()
    } else {
        (if s[0] == '\\' {
            seq!['\\', '\\']
        } else if s[0] == '"' {
            seq!['\\', '"']
        } else {
            seq![s[0]]
        }) + escape_chars(s.drop_first())
    }
}

proof fn lemma_escape_chars_push(s: Seq<char>, c: char)
    ensures
        escape_chars(s.push(c)) == escape_chars(s) + (if c == '\\' {
            seq!['\\', '\\']
        } else if c == '"' {
            seq!['\\', '"']
        } else {
            seq![c]
        }),
    decreases s.len(),
{
    if s.len() == 0 {
        assert(s.push(c)[0] == c);
        assert(s.push(c).drop_first() =~= s);
        assert(escape_chars(s.push(c)) =~= escape_chars(s) + (if c == '\\' {
            seq!['\\', '\\']
        } else if c == '"' {
            seq!['\\', '"']
        } else {
            seq![c]
        }));
    } else {
        assert(s.push(c)[0] == s[0]);
        assert(s.push(c).drop_first() =~= s.drop_first().push(c));
        lemma_escape_chars_push(s.drop_first(), c);
        assert(escape_chars(s.push(c)) =~= escape_chars(s) + (if c == '\\' {
            seq!['\\', '\\']
        } else if c == '"' {
            seq!['\\', '"']
        } else {
            seq![c]
        }));
    }
}

/// Escape a transcript for embedding in a JSON string literal.
pub fn escape_transcript(s: &str) -> (r: String)
    ensures
        r@ == escape_chars(s@),
{
    let n = s.unicode_len();
    let mut out = String::new();
    let mut i: usize = 0;
    while i < n
        invariant
            0 <= i <= n,
            n == s@.len(),
            out@ == escape_chars(s@.take(i as int)),
        decreases n - i,
    {
        let c = s.get_char(i);
        proof {
            assert(s@.take(i + 1 as int) =~= s@.take(i as int).push(s@[i as int]));
            lemma_escape_chars_push(s@.take(i as int), s@[i as int]);
            reveal_strlit("\\\\");
            reveal_strlit("\\\"");
        }
        if c == '\\' {
            out.append("\\\\");
            proof {
                assert(out@ =~= escape_chars(s@.take(i + 1 as int)));
            }
        } else if c == '"' {
            out.append("\\\"");
            proof {
                assert(out@ =~= escape_chars(s@.take(i + 1 as int)));
            }
        } else {
            let piece = s.substring_char(i, i + 1);
            out.append(piece);
            proof {
                assert(piece@ =~= seq![s@[i as int]]);
                assert(out@ =~= escape_chars(s@.take(i + 1 as int)));
            }
        }
        i += 1;
    }
    proof {
        assert(s@.take(n as int) =~= s@);
    }
    out
}

/// The JSON body that asks the server to extract a task from a joined
/// transcript.
pub fn voice_finalize_body(transcript: &str) -> (r: String)
    ensures
        r@ == "{\"transcript\":\""@ + escape_chars(transcript@) + "\"}"@,
{
    let mut out = String::from_str("{\"transcript\":\"");
    let escaped = escape_transcript(transcript);
    out.append(escaped.as_str());
    out.append("\"}");
    out
}

} // verus!
