//! The interactive Python shell: what it shows for each line entered, and
//! its history.
//!
//! The interpreter runs outside the library. For each line the user enters
//! the caller pushes it to the interpreter and reports how that went; the
//! library decides which lines the shell shows and whether the next line
//! continues the same statement.
use vstd::prelude::*;

use crate::text::str_concat;

verus! {

/// The primary prompt.
pub const SYS_PS1: &'static str = ">>> ";

/// The prompt of a continuation line.
pub const SYS_PS2: &'static str = "... ";

/// The greeting shown when the shell opens.
pub const BANNER: &'static str = "Exported objects: 'gerb'. Use 'help(gerb)' for more information.";

/// What a line of the shell starts with.
#[derive(Clone, Copy, Debug, PartialEq, Eq, Structural)]
pub enum LinePrefix {
    /// Output of the interpreter: no prompt.
    Output,
    /// A line entered at the primary prompt.
    Ps1,
    /// A line entered at the continuation prompt.
    Ps2,
}

/// The text of a prefix.
pub open spec fn prefix_text(p: LinePrefix) -> Seq<char> {
    match p {
        LinePrefix::Output => Seq::empty(),
        LinePrefix::Ps1 => SYS_PS1@,
        LinePrefix::Ps2 => SYS_PS2@,
    }
}

impl LinePrefix {
    /// The text of the prefix.
    pub fn as_str(self) -> (ret: &'static str)
        ensures
            ret@ == prefix_text(self),
    {
        proof {
            reveal_strlit("");
        }
        match self {
            LinePrefix::Output => "",
            LinePrefix::Ps1 => SYS_PS1,
            LinePrefix::Ps2 => SYS_PS2,
        }
    }
}

/// `s` without its trailing newlines.
pub open spec fn trim_newlines(s: Seq<char>) -> Seq<char>
    decreases s.len(),
{
    if s.len() > 0 && s.last() == '\n' {
        trim_newlines(s.drop_last())
    } else {
        s
    }
}

/// The text that copying a history gives: each line with its prompt, and
/// a newline after each.
pub open spec fn history_text(h: Seq<(LinePrefix, Seq<char>)>) -> Seq<char>
    decreases h.len(),
{
    if h.len() == 0 {
        Seq::empty()
    } else {
        history_text(h.drop_last()) + prefix_text(h.last().0) + h.last().1 + "\n"@
    }
}

/// `s` without its trailing newlines.
pub fn trim_trailing_newlines(s: &str) -> (ret: String)
    ensures
        ret@ == trim_newlines(s@),
{
    let mut end = s.unicode_len();
    proof {
        assert(s@.subrange(0, end as int) =~= s@);
    }
    while end > 0 && s.get_char(end - 1) == '\n'
        invariant
            end <= s@.len(),
            trim_newlines(s@) == trim_newlines(s@.subrange(0, end as int)),
        decreases end,
    {
        proof {
            assert(s@.subrange(0, end as int).drop_last() =~= s@.subrange(0, end - 1));
        }
        end = end - 1;
    }
    String::from_str(s.substring_char(0, end))
}

/// The lines that a shell has shown, each with its prefix.
pub struct ShellHistory {
    history: Vec<(LinePrefix, String)>,
}

/// A list of lines, as values.
pub open spec fn line_views(v: Seq<(LinePrefix, String)>) -> Seq<(LinePrefix, Seq<char>)>
    decreases v.len(),
{
    if v.len() == 0 {
        Seq::empty()
    } else {
        line_views(v.drop_last()).push((v.last().0, v.last().1@))
    }
}

impl View for ShellHistory {
    type V = Seq<(LinePrefix, Seq<char>)>;

    closed spec fn view(&self) -> Seq<(LinePrefix, Seq<char>)> {
        line_views(self.history@)
    }
}

impl ShellHistory {
    /// An empty history.
    pub fn new() -> (ret: Self)
        ensures
            ret@ == Seq::<(LinePrefix, Seq<char>)>::empty(),
    {
        ShellHistory { history: Vec::new() }
    }

    /// Records a message for the shell to show, without its trailing
    /// newlines, and returns the line to show: the prefix's prompt and the
    /// message. An empty message is neither shown nor recorded.
    pub fn record(&mut self, prefix: LinePrefix, msg: &str) -> (ret: Option<String>)
        ensures
            msg@.len() == 0 ==> ret is None && final(self)@ == old(self)@,
            msg@.len() > 0 ==> (ret matches Some(line) && line@ == prefix_text(prefix)
                + trim_newlines(msg@)) && final(self)@ == old(self)@.push(
                (prefix, trim_newlines(msg@)),
            ),
    {
        if msg.unicode_len() == 0 {
            return None;
        }
        let trimmed = trim_trailing_newlines(msg);
        let line = str_concat(prefix.as_str(), trimmed.as_str());
        self.history.push((prefix, trimmed));
        proof {
            assert(self.history@.drop_last() =~= old(self).history@);
        }
        Some(line)
    }

    /// Forgets every line.
    pub fn clear(&mut self)
        ensures
            final(self)@ == Seq::<(LinePrefix, Seq<char>)>::empty(),
    {
        self.history.clear();
    }

    /// The history as text to copy: each line with its prompt, followed by
    /// a newline.
    pub fn copy_text(&self) -> (ret: String)
        ensures
            ret@ == history_text(self@),
    {
        let mut acc = String::new();
        let mut i: usize = 0;
        while i < self.history.len()
            invariant
                i <= self.history@.len(),
                acc@ == history_text(line_views(self.history@.take(i as int))),
            decreases self.history@.len() - i,
        {
            let (p, l) = &self.history[i];
            let with_prompt = str_concat(acc.as_str(), p.as_str());
            let with_line = str_concat(with_prompt.as_str(), l.as_str());
            acc = str_concat(with_line.as_str(), "\n");
            proof {
                let t1 = self.history@.take(i + 1);
                assert(t1.drop_last() =~= self.history@.take(i as int));
                assert(line_views(t1).drop_last() =~= line_views(self.history@.take(i as int)));
                assert(line_views(t1).last() == (*p, l@));
            }
            i = i + 1;
        }
        proof {
            assert(self.history@.take(i as int) =~= self.history@);
        }
        acc
    }
}

/// Copying the history after a message is recorded gives what it gave
/// before, then the line that the shell showed and a newline; after the
/// history is cleared, copying gives nothing.
pub proof fn law_copy_after_record(h: Seq<(LinePrefix, Seq<char>)>, prefix: LinePrefix, msg: Seq<char>)
    requires
        msg.len() > 0,
    ensures
        history_text(h.push((prefix, trim_newlines(msg)))) == history_text(h) + (prefix_text(prefix)
            + trim_newlines(msg)) + "\n"@,
        history_text(Seq::<(LinePrefix, Seq<char>)>::empty()) == Seq::<char>::empty(),
{
    let h2 = h.push((prefix, trim_newlines(msg)));
    assert(h2.drop_last() =~= h);
    assert(history_text(h2) =~= history_text(h) + (prefix_text(prefix) + trim_newlines(msg)) + "\n"@);
}

/// How the interpreter took a line.
#[derive(Debug)]
pub enum PushOutcome {
    /// It raised an error, with this message.
    Failed(String),
    /// The statement goes on: it needs more lines.
    Incomplete,
    /// The statement ran; this is what it printed.
    Complete(String),
}

/// What the shell shows after a line is pushed, and whether the next line
/// continues the statement: see `shell_response`.
pub open spec fn shell_response_spec(text: Seq<char>, needed_more: bool, outcome: PushOutcome) -> (
    Seq<(LinePrefix, Seq<char>)>,
    bool,
) {
    let prompt = if needed_more { LinePrefix::Ps2 } else { LinePrefix::Ps1 };
    match outcome {
        PushOutcome::Failed(err) => (seq![(LinePrefix::Output, err@)], false),
        PushOutcome::Incomplete => (
            seq![(prompt, if text.len() == 0 { "\n"@ } else { text })],
            true,
        ),
        PushOutcome::Complete(out) => if out@.len() > 0 {
            (seq![(prompt, text + "\n"@), (LinePrefix::Output, out@)], false)
        } else {
            (seq![(prompt, text)], false)
        },
    }
}

/// What the shell shows after the line `text` was pushed to the
/// interpreter with `outcome`, and whether the next line continues the
/// statement. `needed_more` tells whether `text` itself continued one: it
/// is then shown at the continuation prompt. An error is shown as output
/// and ends the statement; a statement that ran shows the line, then what
/// it printed, if anything; an incomplete one shows the line (a newline if
/// it was empty) and asks for more.
pub fn shell_response(text: &str, needed_more: bool, outcome: PushOutcome) -> (ret: (
    Vec<(LinePrefix, String)>,
    bool,
))
    ensures
        (line_views(ret.0@), ret.1) == shell_response_spec(text@, needed_more, outcome),
{
    let prompt = if needed_more {
        LinePrefix::Ps2
    } else {
        LinePrefix::Ps1
    };
    let ghost o = outcome;
    let mut lines: Vec<(LinePrefix, String)> = Vec::new();
    let more = match outcome {
        PushOutcome::Failed(err) => {
            lines.push((LinePrefix::Output, err));
            false
        },
        PushOutcome::Incomplete => {
            if text.unicode_len() == 0 {
                lines.push((prompt, String::from_str("\n")));
            } else {
                lines.push((prompt, String::from_str(text)));
            }
            true
        },
        PushOutcome::Complete(out) => {
            if out.unicode_len() > 0 {
                lines.push((prompt, str_concat(text, "\n")));
                lines.push((LinePrefix::Output, out));
            } else {
                lines.push((prompt, String::from_str(text)));
            }
            false
        },
    };
    proof {
        reveal_with_fuel(line_views, 3);
        let v = lines@;
        if v.len() == 2 {
            assert(v.drop_last().drop_last() =~= Seq::<(LinePrefix, String)>::empty());
            assert(line_views(v) =~= seq![(v[0].0, v[0].1@), (v[1].0, v[1].1@)]);
        } else {
            assert(v.drop_last() =~= Seq::<(LinePrefix, String)>::empty());
            assert(line_views(v) =~= seq![(v[0].0, v[0].1@)]);
        }
    }
    (lines, more)
}

/// What the entry sends to the shell: the text, or a newline when it is
/// empty.
pub fn entry_line(text: &str) -> (ret: String)
    ensures
        ret@ == (if text@.len() == 0 {
            "\n"@
        } else {
            text@
        }),
{
    if text.unicode_len() == 0 {
        String::from_str("\n")
    } else {
        String::from_str(text)
    }
}


/// Every line that the shell shows for an entered line carries the
/// continuation prompt exactly when that line continued a statement, and
/// the primary prompt otherwise, whatever the interpreter made of it;
/// the other lines are output. Unless the interpreter raised an error the
/// entered line is shown first, once, and begins with the entered text
/// (an empty incomplete line shows as a newline); an error shows only its
/// message. The next line continues the statement exactly when the
/// interpreter asked for more.
pub proof fn law_entered_line_prompt(text: Seq<char>, needed_more: bool, outcome: PushOutcome)
    ensures
        ({
            let (lines, more) = shell_response_spec(text, needed_more, outcome);
            &&& forall|i: int|
                0 <= i < lines.len() && !((#[trigger] lines[i]).0 is Output) ==> (lines[i].0 is Ps2) == needed_more
                    && (lines[i].0 is Ps1) == !needed_more
            &&& more == (outcome is Incomplete)
            &&& outcome matches PushOutcome::Failed(err) ==> lines.len() == 1 && lines[0].0 is Output
                && lines[0].1 == err@
            &&& !(outcome is Failed) ==> {
                &&& lines.len() >= 1
                &&& !(lines[0].0 is Output)
                &&& forall|i: int| 1 <= i < lines.len() ==> (#[trigger] lines[i]).0 is Output
                &&& if outcome is Incomplete && text.len() == 0 {
                    lines[0].1 == "\n"@
                } else {
                    lines[0].1.len() >= text.len() && lines[0].1.take(text.len() as int) == text
                }
            }
        }),
{
    let (lines, more) = shell_response_spec(text, needed_more, outcome);
    if !(outcome is Failed) && !(outcome is Incomplete && text.len() == 0) {
        assert(lines[0].1.take(text.len() as int) =~= text);
    }
}

} // verus!
