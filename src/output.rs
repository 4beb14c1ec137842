//! Terminal output mode.

use vstd::prelude::*;
use crate::text::push_char;

verus! {

#[derive(Debug, Clone, Copy, PartialEq, Eq, Structural)]
pub enum OutputFormat {
    Text,
    Json,
    Quiet,
}

/// How results are printed; quiet wins over JSON.
#[derive(Debug, Clone, Copy)]
pub struct Output {
    format: OutputFormat,
}

impl Output {
    pub closed spec fn format_spec(&self) -> OutputFormat {
        self.format
    }

    pub fn new(json: bool, quiet: bool) -> (r: Self)
        ensures
            r.format_spec() == if quiet {
                OutputFormat::Quiet
            } else if json {
                OutputFormat::Json
            } else {
                OutputFormat::Text
            },
    {
        let format = if quiet {
            OutputFormat::Quiet
        } else if json {
            OutputFormat::Json
        } else {
            OutputFormat::Text
        };
        Output { format }
    }

    pub fn format(&self) -> (r: OutputFormat)
        ensures
            r == self.format_spec(),
    {
        self.format
    }

    pub fn is_json(&self) -> (r: bool)
        ensures
            r == (self.format_spec() == OutputFormat::Json),
    {
        self.format == OutputFormat::Json
    }

    /// Headers, sections and progress are shown in text mode only.
    pub fn is_text(&self) -> (r: bool)
        ensures
            r == (self.format_spec() == OutputFormat::Text),
    {
        self.format == OutputFormat::Text
    }
}

/// A run of `n` heavy horizontal rules.
pub open spec fn rule(n: nat) -> Seq<char> {
    Seq::new(n, |i: int| '━')
}

/// The banner printed before a command's output in text mode.
pub open spec fn header_spec(title: Seq<char>) -> Seq<char> {
    "\n"@ + "NeLST - "@ + title + "\n"@ + rule(57) + "\n"@ + "\n"@
}

/// Width of the rules around a section title: half of what the title
/// leaves of 45 columns, at least 3.
pub open spec fn section_rule_width(title_len: nat) -> nat {
    let padding: nat = if title_len >= 45 {
        0
    } else {
        ((45 - title_len) / 2) as nat
    };
    if padding < 3 {
        3
    } else {
        padding
    }
}

/// A section title between two rules.
pub open spec fn section_spec(title: Seq<char>) -> Seq<char> {
    rule(section_rule_width(title.len())) + " "@ + title + " "@ + rule(
        section_rule_width(title.len()),
    ) + "\n"@ + "\n"@
}

fn push_rule(out: &mut String, n: usize)
    ensures
        final(out)@ == old(out)@ + rule(n as nat),
{
    let mut k: usize = 0;
    while k < n
        invariant
            k <= n,
            out@ == old(out)@ + rule(k as nat),
        decreases n - k,
    {
        push_char(out, '━');
        k = k + 1;
        assert(out@ =~= old(out)@ + rule(k as nat));
    }
}

/// The banner text for a command titled `title`.
pub fn header_text(title: &str) -> (r: String)
    ensures
        r@ == header_spec(title@),
{
    let mut out = String::from_str("\n");
    out.append("NeLST - ");
    out.append(title);
    out.append("\n");
    push_rule(&mut out, 57);
    out.append("\n");
    out.append("\n");
    assert(out@ =~= header_spec(title@));
    out
}

/// The text of a section heading.
pub fn section_text(title: &str) -> (r: String)
    ensures
        r@ == section_spec(title@),
{
    let n = title.unicode_len();
    let padding: usize = if n >= 45 {
        0
    } else {
        (45 - n) / 2
    };
    let width: usize = if padding < 3 {
        3
    } else {
        padding
    };
    let mut out = String::new();
    push_rule(&mut out, width);
    out.append(" ");
    out.append(title);
    out.append(" ");
    push_rule(&mut out, width);
    out.append("\n");
    out.append("\n");
    assert(out@ =~= section_spec(title@));
    out
}

} // verus!
