//! Report rendering: CSV, HTML, Markdown and plain text from titled
//! sections.

use vstd::prelude::*;
use crate::error::NelstError;
use crate::ports::{split_on, split_ranges};
use crate::service::line_at;
use crate::stats::now_rfc3339;
use crate::text::{chars_of, lower_of, lowercase, push_char, str_eq, string_of};

verus! {

#[derive(Debug, Clone, Copy, PartialEq, Eq, Structural)]
pub enum ReportFormat {
    Json,
    Csv,
    Html,
    Markdown,
    Text,
}

/// The format a lower-cased name denotes.
pub open spec fn format_of(lower: Seq<char>) -> Option<ReportFormat> {
    if lower == "json"@ {
        Some(ReportFormat::Json)
    } else if lower == "csv"@ {
        Some(ReportFormat::Csv)
    } else if lower == "html"@ {
        Some(ReportFormat::Html)
    } else if lower == "markdown"@ || lower == "md"@ {
        Some(ReportFormat::Markdown)
    } else if lower == "text"@ || lower == "txt"@ {
        Some(ReportFormat::Text)
    } else {
        None
    }
}

pub open spec fn unknown_format_message(s: Seq<char>) -> Seq<char> {
    "Unknown report format: "@ + s + ". Valid formats: json, csv, html, markdown, text"@
}

impl ReportFormat {
    /// The format named by `lower` (the name `s` lower-cased); an unknown
    /// name is a configuration error naming `s`.
    pub fn from_lowercase(lower: &str, s: &str) -> (r: Result<Self, NelstError>)
        ensures
            match format_of(lower@) {
                Some(f) => r == Ok::<ReportFormat, NelstError>(f),
                None => r matches Err(NelstError::Config { message }) && message@
                    == unknown_format_message(s@),
            },
    {
        if str_eq(lower, "json") {
            Ok(ReportFormat::Json)
        } else if str_eq(lower, "csv") {
            Ok(ReportFormat::Csv)
        } else if str_eq(lower, "html") {
            Ok(ReportFormat::Html)
        } else if str_eq(lower, "markdown") || str_eq(lower, "md") {
            Ok(ReportFormat::Markdown)
        } else if str_eq(lower, "text") || str_eq(lower, "txt") {
            Ok(ReportFormat::Text)
        } else {
            let mut m = String::from_str("Unknown report format: ");
            m.append(s);
            m.append(". Valid formats: json, csv, html, markdown, text");
            Err(NelstError::config(m.as_str()))
        }
    }

    /// Parses a format name, ignoring case (`md` and `txt` are accepted).
    pub fn from_str(s: &str) -> (r: Result<Self, NelstError>)
        ensures
            match format_of(lower_of(s@)) {
                Some(f) => r == Ok::<ReportFormat, NelstError>(f),
                None => r matches Err(NelstError::Config { message }) && message@
                    == unknown_format_message(s@),
            },
    {
        let lower = lowercase(s);
        ReportFormat::from_lowercase(lower.as_str(), s)
    }

    pub open spec fn extension_spec(self) -> Seq<char> {
        match self {
            ReportFormat::Json => "json"@,
            ReportFormat::Csv => "csv"@,
            ReportFormat::Html => "html"@,
            ReportFormat::Markdown => "md"@,
            ReportFormat::Text => "txt"@,
        }
    }

    /// File extension of the format.
    pub fn extension(&self) -> (r: &'static str)
        ensures
            r@ == self.extension_spec(),
    {
        match self {
            ReportFormat::Json => "json",
            ReportFormat::Csv => "csv",
            ReportFormat::Html => "html",
            ReportFormat::Markdown => "md",
            ReportFormat::Text => "txt",
        }
    }
}

pub open spec fn ends_with(s: Seq<char>, suffix: Seq<char>) -> bool {
    suffix.len() <= s.len() && s.skip(s.len() - suffix.len()) == suffix
}

/// The report format a file name asks for: `.html`, `.md` and `.csv`
/// name their formats; anything else is JSON.
pub open spec fn format_for_path_spec(path: Seq<char>) -> ReportFormat {
    if ends_with(path, ".html"@) {
        ReportFormat::Html
    } else if ends_with(path, ".md"@) {
        ReportFormat::Markdown
    } else if ends_with(path, ".csv"@) {
        ReportFormat::Csv
    } else {
        ReportFormat::Json
    }
}

fn has_suffix(cs: &Vec<char>, suffix: &str) -> (r: bool)
    ensures
        r == ends_with(cs@, suffix@),
{
    let sx = chars_of(suffix);
    if sx.len() > cs.len() {
        return false;
    }
    let cl = cs.len();
    let off = cl - sx.len();
    let mut i: usize = 0;
    while i < sx.len()
        invariant
            cl == cs@.len(),
            sx@ == suffix@,
            off + sx@.len() == cs@.len(),
            i <= sx@.len(),
            forall|j: int| 0 <= j < i ==> cs@[off + j] == sx@[j],
        decreases sx@.len() - i,
    {
        if cs[off + i] != sx[i] {
            assert(cs@.skip(off as int)[i as int] != suffix@[i as int]);
            return false;
        }
        i = i + 1;
    }
    assert(cs@.skip(off as int) =~= suffix@);
    true
}

/// Picks the report format from the report file's name.
pub fn format_for_path(path: &str) -> (r: ReportFormat)
    ensures
        r == format_for_path_spec(path@),
{
    let cs = chars_of(path);
    if has_suffix(&cs, ".html") {
        ReportFormat::Html
    } else if has_suffix(&cs, ".md") {
        ReportFormat::Markdown
    } else if has_suffix(&cs, ".csv") {
        ReportFormat::Csv
    } else {
        ReportFormat::Json
    }
}

/// The body of a report section.
#[derive(Debug, Clone)]
pub enum SectionContent {
    KeyValue(Vec<(String, String)>),
    Table { headers: Vec<String>, rows: Vec<Vec<String>> },
    Text(String),
}

#[derive(Debug, Clone)]
pub struct ReportSection {
    pub title: String,
    pub content: SectionContent,
}

impl ReportSection {
    /// A section of key/value pairs.
    pub fn key_value(title: &str, items: Vec<(&str, &str)>) -> (r: Self)
        ensures
            r.title@ == title@,
            r.content matches SectionContent::KeyValue(kv) && kv@.len() == items@.len() && forall|
                i: int,
            |
                0 <= i < items@.len() ==> (#[trigger] kv@[i]).0@ == items@[i].0@ && kv@[i].1@
                    == items@[i].1@,
    {
        let mut kv: Vec<(String, String)> = Vec::new();
        let mut i: usize = 0;
        while i < items.len()
            invariant
                i <= items@.len(),
                kv@.len() == i,
                forall|j: int|
                    0 <= j < i ==> (#[trigger] kv@[j]).0@ == items@[j].0@ && kv@[j].1@
                        == items@[j].1@,
            decreases items@.len() - i,
        {
            let (k, v) = items[i];
            kv.push((String::from_str(k), String::from_str(v)));
            i = i + 1;
        }
        ReportSection { title: String::from_str(title), content: SectionContent::KeyValue(kv) }
    }

    /// A table section.
    pub fn table(title: &str, headers: Vec<&str>, rows: Vec<Vec<String>>) -> (r: Self)
        ensures
            r.title@ == title@,
            r.content matches SectionContent::Table { headers: h, rows: rs } && h@.len()
                == headers@.len() && (forall|i: int|
                0 <= i < headers@.len() ==> (#[trigger] h@[i])@ == headers@[i]@) && rs == rows,
    {
        let mut hs: Vec<String> = Vec::new();
        let mut i: usize = 0;
        while i < headers.len()
            invariant
                i <= headers@.len(),
                hs@.len() == i,
                forall|j: int| 0 <= j < i ==> (#[trigger] hs@[j])@ == headers@[j]@,
            decreases headers@.len() - i,
        {
            hs.push(String::from_str(headers[i]));
            i = i + 1;
        }
        ReportSection {
            title: String::from_str(title),
            content: SectionContent::Table { headers: hs, rows },
        }
    }

    /// A free-text section.
    pub fn text(title: &str, content: &str) -> (r: Self)
        ensures
            r.title@ == title@,
            r.content matches SectionContent::Text(t) && t@ == content@,
    {
        ReportSection {
            title: String::from_str(title),
            content: SectionContent::Text(String::from_str(content)),
        }
    }
}

/// HTML escape of one character.
pub open spec fn escape_char(c: char) -> Seq<char> {
    if c == '&' {
        "&amp;"@
    } else if c == '<' {
        "&lt;"@
    } else if c == '>' {
        "&gt;"@
    } else if c == '"' {
        "&quot;"@
    } else if c == '\'' {
        "&#x27;"@
    } else {
        seq![c]
    }
}

/// `s` with `& < > " '` replaced by their HTML entities.
pub open spec fn escape_spec(s: Seq<char>) -> Seq<char>
    decreases s.len(),
{
    if s.len() == 0 {
        Seq::empty()
    } else {
        escape_spec(s.drop_last()) + escape_char(s.last())
    }
}

fn push_escaped(out: &mut String, s: &str)
    ensures
        final(out)@ == old(out)@ + escape_spec(s@),
{
    let cs = chars_of(s);
    let mut i: usize = 0;
    while i < cs.len()
        invariant
            cs@ == s@,
            i <= cs@.len(),
            out@ == old(out)@ + escape_spec(s@.take(i as int)),
        decreases cs@.len() - i,
    {
        let c = cs[i];
        assert(s@.take(i as int + 1).drop_last() =~= s@.take(i as int));
        if c == '&' {
            out.append("&amp;");
        } else if c == '<' {
            out.append("&lt;");
        } else if c == '>' {
            out.append("&gt;");
        } else if c == '"' {
            out.append("&quot;");
        } else if c == '\'' {
            out.append("&#x27;");
        } else {
            push_char(out, c);
            assert(seq![c] =~= escape_char(c));
        }
        i = i + 1;
        assert(out@ =~= old(out)@ + escape_spec(s@.take(i as int)));
    }
    assert(s@.take(cs@.len() as int) =~= s@);
}

/// Escapes `& < > " '` for HTML.
pub fn escape_html(s: &str) -> (r: String)
    ensures
        r@ == escape_spec(s@),
{
    let mut out = String::new();
    push_escaped(&mut out, s);
    assert(out@ =~= escape_spec(s@));
    out
}

/// `xs` joined with `sep` between neighbours.
pub open spec fn join(xs: Seq<Seq<char>>, sep: Seq<char>) -> Seq<char>
    decreases xs.len(),
{
    if xs.len() == 0 {
        Seq::empty()
    } else if xs.len() == 1 {
        xs[0]
    } else {
        join(xs.drop_last(), sep) + sep + xs.last()
    }
}

pub open spec fn views(xs: Seq<String>) -> Seq<Seq<char>> {
    xs.map_values(|s: String| s@)
}

/// `"` doubled.
pub open spec fn double_quotes(s: Seq<char>) -> Seq<char>
    decreases s.len(),
{
    if s.len() == 0 {
        Seq::empty()
    } else if s.last() == '"' {
        double_quotes(s.drop_last()) + seq!['"', '"']
    } else {
        double_quotes(s.drop_last()).push(s.last())
    }
}

/// A CSV field: quoted, with quotes doubled, when it holds a comma, a
/// quote or a newline.
pub open spec fn csv_cell(c: Seq<char>) -> Seq<char> {
    if c.contains(',') || c.contains('"') || c.contains('\n') {
        seq!['"'] + double_quotes(c) + seq!['"']
    } else {
        c
    }
}

pub open spec fn csv_row(row: Seq<String>) -> Seq<char> {
    join(row.map_values(|s: String| csv_cell(s@)), ","@) + "\n"@
}

pub open spec fn csv_rows(rows: Seq<Vec<String>>) -> Seq<char>
    decreases rows.len(),
{
    if rows.len() == 0 {
        Seq::empty()
    } else {
        csv_rows(rows.drop_last()) + csv_row(rows.last()@)
    }
}

/// A CSV document: the header line, then one line per row.
pub open spec fn csv_spec(headers: Seq<Seq<char>>, rows: Seq<Vec<String>>) -> Seq<char> {
    join(headers, ","@) + "\n"@ + csv_rows(rows)
}

fn contains_char(cs: &Vec<char>, c: char) -> (r: bool)
    ensures
        r == cs@.contains(c),
{
    let mut i: usize = 0;
    while i < cs.len()
        invariant
            i <= cs@.len(),
            forall|j: int| 0 <= j < i ==> cs@[j] != c,
        decreases cs@.len() - i,
    {
        if cs[i] == c {
            return true;
        }
        i = i + 1;
    }
    false
}

fn push_csv_cell(out: &mut String, cell: &str)
    ensures
        final(out)@ == old(out)@ + csv_cell(cell@),
{
    let cs = chars_of(cell);
    if contains_char(&cs, ',') || contains_char(&cs, '"') || contains_char(&cs, '\n') {
        push_char(out, '"');
        let mut i: usize = 0;
        let ghost start = out@;
        while i < cs.len()
            invariant
                cs@ == cell@,
                i <= cs@.len(),
                out@ == start + double_quotes(cell@.take(i as int)),
            decreases cs@.len() - i,
        {
            assert(cell@.take(i as int + 1).drop_last() =~= cell@.take(i as int));
            if cs[i] == '"' {
                push_char(out, '"');
                push_char(out, '"');
            } else {
                push_char(out, cs[i]);
            }
            i = i + 1;
            assert(out@ =~= start + double_quotes(cell@.take(i as int)));
        }
        assert(cell@.take(cs@.len() as int) =~= cell@);
        push_char(out, '"');
        assert(out@ =~= old(out)@ + csv_cell(cell@));
    } else {
        out.append(cell);
    }
}

/// Appends the items joined by `sep`, each transformed by `f` as stated.
fn push_joined_strs(out: &mut String, items: &Vec<&str>, sep: &str)
    ensures
        final(out)@ == old(out)@ + join(items@.map_values(|s: &str| s@), sep@),
{
    let mut i: usize = 0;
    while i < items.len()
        invariant
            i <= items@.len(),
            out@ == old(out)@ + join(items@.take(i as int).map_values(|s: &str| s@), sep@),
        decreases items@.len() - i,
    {
        let ghost before = items@.take(i as int).map_values(|s: &str| s@);
        let ghost after = items@.take(i as int + 1).map_values(|s: &str| s@);
        assert(after.drop_last() =~= before);
        if i > 0 {
            out.append(sep);
        }
        out.append(items[i]);
        i = i + 1;
        assert(out@ =~= old(out)@ + join(items@.take(i as int).map_values(|s: &str| s@), sep@));
    }
    assert(items@.take(items@.len() as int) =~= items@);
}

pub(crate) fn push_joined(out: &mut String, items: &Vec<String>, sep: &str)
    ensures
        final(out)@ == old(out)@ + join(views(items@), sep@),
{
    let mut i: usize = 0;
    while i < items.len()
        invariant
            i <= items@.len(),
            out@ == old(out)@ + join(views(items@.take(i as int)), sep@),
        decreases items@.len() - i,
    {
        assert(views(items@.take(i as int + 1)).drop_last() =~= views(items@.take(i as int)));
        if i > 0 {
            out.append(sep);
        }
        out.append(items[i].as_str());
        i = i + 1;
        assert(out@ =~= old(out)@ + join(views(items@.take(i as int)), sep@));
    }
    assert(items@.take(items@.len() as int) =~= items@);
}

fn push_csv_row(out: &mut String, row: &Vec<String>)
    ensures
        final(out)@ == old(out)@ + csv_row(row@),
{
    let mut i: usize = 0;
    while i < row.len()
        invariant
            i <= row@.len(),
            out@ == old(out)@ + join(
                row@.take(i as int).map_values(|s: String| csv_cell(s@)),
                ","@,
            ),
        decreases row@.len() - i,
    {
        assert(row@.take(i as int + 1).map_values(|s: String| csv_cell(s@)).drop_last()
            =~= row@.take(i as int).map_values(|s: String| csv_cell(s@)));
        if i > 0 {
            out.append(",");
        }
        push_csv_cell(out, row[i].as_str());
        i = i + 1;
        assert(out@ =~= old(out)@ + join(
            row@.take(i as int).map_values(|s: String| csv_cell(s@)),
            ","@,
        ));
    }
    assert(row@.take(row@.len() as int) =~= row@);
    out.append("\n");
}

/// Style sheet inlined into HTML reports.
pub const CSS_STYLES: &'static str = r#"
    body {
      font-family: -apple-system, BlinkMacSystemFont, 'Segoe UI', Roboto, Oxygen, Ubuntu, sans-serif;
      line-height: 1.6;
      color: #333;
      background: #f5f5f5;
      margin: 0;
      padding: 20px;
    }
    .container {
      max-width: 1000px;
      margin: 0 auto;
      background: white;
      padding: 30px;
      border-radius: 8px;
      box-shadow: 0 2px 4px rgba(0,0,0,0.1);
    }
    h1 {
      color: #2c3e50;
      border-bottom: 3px solid #3498db;
      padding-bottom: 10px;
    }
    h2 {
      color: #34495e;
      margin-top: 30px;
      border-bottom: 1px solid #ecf0f1;
      padding-bottom: 5px;
    }
    .description {
      color: #7f8c8d;
      font-size: 1.1em;
    }
    .meta {
      color: #95a5a6;
      font-size: 0.9em;
    }
    table {
      width: 100%;
      border-collapse: collapse;
      margin: 15px 0;
    }
    .kv-table th {
      text-align: left;
      width: 200px;
      padding: 8px 12px;
      background: #ecf0f1;
      border: 1px solid #bdc3c7;
    }
    .kv-table td {
      padding: 8px 12px;
      border: 1px solid #bdc3c7;
    }
    .data-table th {
      background: #3498db;
      color: white;
      padding: 10px;
      text-align: left;
    }
    .data-table td {
      padding: 10px;
      border-bottom: 1px solid #ecf0f1;
    }
    .data-table tbody tr:hover {
      background: #f8f9fa;
    }
    pre {
      background: #2c3e50;
      color: #ecf0f1;
      padding: 15px;
      border-radius: 4px;
      overflow-x: auto;
    }
"#;

/// Wraps each string, HTML-escaped, between `pre` and `post`.
pub open spec fn wrap_escaped(xs: Seq<String>, pre: Seq<char>, post: Seq<char>) -> Seq<char>
    decreases xs.len(),
{
    if xs.len() == 0 {
        Seq::empty()
    } else {
        wrap_escaped(xs.drop_last(), pre, post) + pre + escape_spec(xs.last()@) + post
    }
}

fn push_wrapped_escaped(out: &mut String, xs: &Vec<String>, pre: &str, post: &str)
    ensures
        final(out)@ == old(out)@ + wrap_escaped(xs@, pre@, post@),
{
    let mut i: usize = 0;
    while i < xs.len()
        invariant
            i <= xs@.len(),
            out@ == old(out)@ + wrap_escaped(xs@.take(i as int), pre@, post@),
        decreases xs@.len() - i,
    {
        assert(xs@.take(i as int + 1).drop_last() =~= xs@.take(i as int));
        out.append(pre);
        push_escaped(out, xs[i].as_str());
        out.append(post);
        i = i + 1;
        assert(out@ =~= old(out)@ + wrap_escaped(xs@.take(i as int), pre@, post@));
    }
    assert(xs@.take(xs@.len() as int) =~= xs@);
}

pub open spec fn html_kv_rows(items: Seq<(String, String)>) -> Seq<char>
    decreases items.len(),
{
    if items.len() == 0 {
        Seq::empty()
    } else {
        html_kv_rows(items.drop_last()) + "      <tr><th>"@ + escape_spec(items.last().0@)
            + "</th><td>"@ + escape_spec(items.last().1@) + "</td></tr>\n"@
    }
}

pub open spec fn html_rows(rows: Seq<Vec<String>>) -> Seq<char>
    decreases rows.len(),
{
    if rows.len() == 0 {
        Seq::empty()
    } else {
        html_rows(rows.drop_last()) + "      <tr>\n"@ + wrap_escaped(
            rows.last()@,
            "        <td>"@,
            "</td>\n"@,
        ) + "      </tr>\n"@
    }
}

pub open spec fn html_content(c: SectionContent) -> Seq<char> {
    match c {
        SectionContent::KeyValue(items) => "    <table class=\"kv-table\">\n"@ + html_kv_rows(items@)
            + "    </table>\n"@,
        SectionContent::Table { headers, rows } => "    <table class=\"data-table\">\n"@
            + "      <thead><tr>\n"@ + wrap_escaped(headers@, "        <th>"@, "</th>\n"@)
            + "      </tr></thead>\n"@ + "      <tbody>\n"@ + html_rows(rows@)
            + "      </tbody>\n"@ + "    </table>\n"@,
        SectionContent::Text(t) => "    <pre>"@ + escape_spec(t@) + "</pre>\n"@,
    }
}

pub open spec fn html_sections(ss: Seq<ReportSection>) -> Seq<char>
    decreases ss.len(),
{
    if ss.len() == 0 {
        Seq::empty()
    } else {
        html_sections(ss.drop_last()) + "    <h2>"@ + escape_spec(ss.last().title@) + "</h2>\n"@
            + html_content(ss.last().content)
    }
}

/// The HTML document of a report.
pub open spec fn html_spec(
    title: Seq<char>,
    description: Option<Seq<char>>,
    generated_at: Seq<char>,
    ss: Seq<ReportSection>,
) -> Seq<char> {
    "<!DOCTYPE html>\n"@ + "<html lang=\"en\">\n"@ + "<head>\n"@ + "  <meta charset=\"UTF-8\">\n"@
        + "  <meta name=\"viewport\" content=\"width=device-width, initial-scale=1.0\">\n"@
        + "  <title>"@ + escape_spec(title) + "</title>\n"@ + "  <style>\n"@ + CSS_STYLES@
        + "  </style>\n"@ + "</head>\n"@ + "<body>\n"@ + "  <div class=\"container\">\n"@
        + "    <h1>"@ + escape_spec(title) + "</h1>\n"@ + match description {
        Some(d) => "    <p class=\"description\">"@ + escape_spec(d) + "</p>\n"@,
        None => Seq::empty(),
    } + "    <p class=\"meta\">Generated: "@ + generated_at + "</p>\n"@ + html_sections(ss)
        + "  </div>\n"@ + "</body>\n"@ + "</html>\n"@
}

fn push_html_content(out: &mut String, c: &SectionContent)
    ensures
        final(out)@ == old(out)@ + html_content(*c),
{
    match c {
        SectionContent::KeyValue(items) => {
            out.append("    <table class=\"kv-table\">\n");
            let ghost start = out@;
            let mut i: usize = 0;
            while i < items.len()
                invariant
                    i <= items@.len(),
                    out@ == start + html_kv_rows(items@.take(i as int)),
                decreases items@.len() - i,
            {
                assert(items@.take(i as int + 1).drop_last() =~= items@.take(i as int));
                out.append("      <tr><th>");
                push_escaped(out, items[i].0.as_str());
                out.append("</th><td>");
                push_escaped(out, items[i].1.as_str());
                out.append("</td></tr>\n");
                i = i + 1;
                assert(out@ =~= start + html_kv_rows(items@.take(i as int)));
            }
            assert(items@.take(items@.len() as int) =~= items@);
            out.append("    </table>\n");
        },
        SectionContent::Table { headers, rows } => {
            out.append("    <table class=\"data-table\">\n");
            out.append("      <thead><tr>\n");
            push_wrapped_escaped(out, headers, "        <th>", "</th>\n");
            out.append("      </tr></thead>\n");
            out.append("      <tbody>\n");
            let ghost start = out@;
            let mut i: usize = 0;
            while i < rows.len()
                invariant
                    i <= rows@.len(),
                    out@ == start + html_rows(rows@.take(i as int)),
                decreases rows@.len() - i,
            {
                assert(rows@.take(i as int + 1).drop_last() =~= rows@.take(i as int));
                out.append("      <tr>\n");
                push_wrapped_escaped(out, &rows[i], "        <td>", "</td>\n");
                out.append("      </tr>\n");
                i = i + 1;
                assert(out@ =~= start + html_rows(rows@.take(i as int)));
            }
            assert(rows@.take(rows@.len() as int) =~= rows@);
            out.append("      </tbody>\n");
            out.append("    </table>\n");
        },
        SectionContent::Text(t) => {
            out.append("    <pre>");
            push_escaped(out, t.as_str());
            out.append("</pre>\n");
        },
    }
    assert(out@ =~= old(out)@ + html_content(*c));
}

pub open spec fn md_kv(items: Seq<(String, String)>) -> Seq<char>
    decreases items.len(),
{
    if items.len() == 0 {
        Seq::empty()
    } else {
        md_kv(items.drop_last()) + "- **"@ + items.last().0@ + "**: "@ + items.last().1@ + "\n"@
    }
}

pub open spec fn md_rows(rows: Seq<Vec<String>>) -> Seq<char>
    decreases rows.len(),
{
    if rows.len() == 0 {
        Seq::empty()
    } else {
        md_rows(rows.drop_last()) + "| "@ + join(views(rows.last()@), " | "@) + " |\n"@
    }
}

pub open spec fn md_content(c: SectionContent) -> Seq<char> {
    match c {
        SectionContent::KeyValue(items) => md_kv(items@) + "\n"@,
        SectionContent::Table { headers, rows } => "| "@ + join(views(headers@), " | "@)
            + " |\n"@ + "| "@ + join(Seq::new(headers@.len(), |i: int| "---"@), " | "@)
            + " |\n"@ + md_rows(rows@) + "\n"@,
        SectionContent::Text(t) => "```\n"@ + t@ + "\n```\n\n"@,
    }
}

pub open spec fn md_sections(ss: Seq<ReportSection>) -> Seq<char>
    decreases ss.len(),
{
    if ss.len() == 0 {
        Seq::empty()
    } else {
        md_sections(ss.drop_last()) + "## "@ + ss.last().title@ + "\n\n"@ + md_content(
            ss.last().content,
        )
    }
}

/// The Markdown document of a report.
pub open spec fn markdown_spec(
    title: Seq<char>,
    description: Option<Seq<char>>,
    generated_at: Seq<char>,
    ss: Seq<ReportSection>,
) -> Seq<char> {
    "# "@ + title + "\n\n"@ + match description {
        Some(d) => d + "\n\n"@,
        None => Seq::empty(),
    } + "*Generated: "@ + generated_at + "*\n\n"@ + md_sections(ss)
}

fn push_dashes_joined(out: &mut String, n: usize)
    ensures
        final(out)@ == old(out)@ + join(Seq::new(n as nat, |i: int| "---"@), " | "@),
{
    let mut i: usize = 0;
    while i < n
        invariant
            i <= n,
            out@ == old(out)@ + join(Seq::new(i as nat, |k: int| "---"@), " | "@),
        decreases n - i,
    {
        assert(Seq::new((i + 1) as nat, |k: int| "---"@).drop_last() =~= Seq::new(
            i as nat,
            |k: int| "---"@,
        ));
        if i > 0 {
            out.append(" | ");
        }
        out.append("---");
        i = i + 1;
        assert(out@ =~= old(out)@ + join(Seq::new(i as nat, |k: int| "---"@), " | "@));
    }
}

fn push_md_content(out: &mut String, c: &SectionContent)
    ensures
        final(out)@ == old(out)@ + md_content(*c),
{
    match c {
        SectionContent::KeyValue(items) => {
            let ghost start = out@;
            let mut i: usize = 0;
            while i < items.len()
                invariant
                    i <= items@.len(),
                    out@ == start + md_kv(items@.take(i as int)),
                decreases items@.len() - i,
            {
                assert(items@.take(i as int + 1).drop_last() =~= items@.take(i as int));
                out.append("- **");
                out.append(items[i].0.as_str());
                out.append("**: ");
                out.append(items[i].1.as_str());
                out.append("\n");
                i = i + 1;
                assert(out@ =~= start + md_kv(items@.take(i as int)));
            }
            assert(items@.take(items@.len() as int) =~= items@);
            out.append("\n");
        },
        SectionContent::Table { headers, rows } => {
            out.append("| ");
            push_joined(out, headers, " | ");
            out.append(" |\n");
            out.append("| ");
            push_dashes_joined(out, headers.len());
            out.append(" |\n");
            let ghost start = out@;
            let mut i: usize = 0;
            while i < rows.len()
                invariant
                    i <= rows@.len(),
                    out@ == start + md_rows(rows@.take(i as int)),
                decreases rows@.len() - i,
            {
                assert(rows@.take(i as int + 1).drop_last() =~= rows@.take(i as int));
                out.append("| ");
                push_joined(out, &rows[i], " | ");
                out.append(" |\n");
                i = i + 1;
                assert(out@ =~= start + md_rows(rows@.take(i as int)));
            }
            assert(rows@.take(rows@.len() as int) =~= rows@);
            out.append("\n");
        },
        SectionContent::Text(t) => {
            out.append("```\n");
            out.append(t.as_str());
            out.append("\n```\n\n");
        },
    }
    assert(out@ =~= old(out)@ + md_content(*c));
}

pub open spec fn spaces(n: nat) -> Seq<char> {
    Seq::new(n, |i: int| ' ')
}

pub open spec fn dashes(n: nat) -> Seq<char> {
    Seq::new(n, |i: int| '-')
}

/// `s` left-aligned in a field of `w` characters.
pub open spec fn pad_right(s: Seq<char>, w: nat) -> Seq<char> {
    if s.len() >= w {
        s
    } else {
        s + spaces((w - s.len()) as nat)
    }
}

/// Length of the longest key among the first `m` items.
pub open spec fn key_width(items: Seq<(String, String)>, m: int) -> nat
    decreases m,
{
    if m <= 0 {
        0
    } else if items[m - 1].0@.len() > key_width(items, m - 1) {
        items[m - 1].0@.len()
    } else {
        key_width(items, m - 1)
    }
}

pub open spec fn text_kv(items: Seq<(String, String)>, w: nat) -> Seq<char>
    decreases items.len(),
{
    if items.len() == 0 {
        Seq::empty()
    } else {
        text_kv(items.drop_last(), w) + "  "@ + pad_right(items.last().0@, w) + "  "@
            + items.last().1@ + "\n"@
    }
}

/// Width of column `i` over the header of length `base` and the first `m`
/// rows.
pub open spec fn col_width(rows: Seq<Vec<String>>, i: int, m: int, base: nat) -> nat
    decreases m,
{
    if m <= 0 {
        base
    } else if i < rows[m - 1]@.len() && rows[m - 1]@[i]@.len() > col_width(rows, i, m - 1, base) {
        rows[m - 1]@[i]@.len()
    } else {
        col_width(rows, i, m - 1, base)
    }
}

/// Column widths: the longest of the header and the cells below it.
pub open spec fn widths_spec(headers: Seq<String>, rows: Seq<Vec<String>>) -> Seq<nat> {
    Seq::new(headers.len(), |i: int| col_width(rows, i, rows.len() as int, headers[i]@.len()))
}

/// Cells padded to the column widths and joined by two spaces; cells
/// beyond the last column are left out.
pub open spec fn padded_line(cells: Seq<String>, widths: Seq<nat>) -> Seq<char> {
    let n = if cells.len() < widths.len() {
        cells.len()
    } else {
        widths.len()
    };
    join(Seq::new(n, |j: int| pad_right(cells[j]@, widths[j])), "  "@)
}

pub open spec fn text_rows(rows: Seq<Vec<String>>, widths: Seq<nat>) -> Seq<char>
    decreases rows.len(),
{
    if rows.len() == 0 {
        Seq::empty()
    } else {
        text_rows(rows.drop_last(), widths) + "  "@ + padded_line(rows.last()@, widths) + "\n"@
    }
}

/// The lines of a text (`str::lines`): split at newlines, a final empty
/// piece dropped, a carriage return before a newline removed.
pub open spec fn lines_of(t: Seq<char>) -> Seq<Seq<char>> {
    let parts = split_on(t, '\n');
    let n = if parts.last().len() == 0 {
        parts.len() - 1
    } else {
        parts.len() as int
    };
    Seq::new(n as nat, |k: int| line_at(parts, k))
}

pub open spec fn indented(ls: Seq<Seq<char>>) -> Seq<char>
    decreases ls.len(),
{
    if ls.len() == 0 {
        Seq::empty()
    } else {
        indented(ls.drop_last()) + "  "@ + ls.last() + "\n"@
    }
}

pub open spec fn text_content(c: SectionContent) -> Seq<char> {
    match c {
        SectionContent::KeyValue(items) => text_kv(items@, key_width(items@, items@.len() as int))
            + "\n"@,
        SectionContent::Table { headers, rows } => {
            let w = widths_spec(headers@, rows@);
            "  "@ + padded_line(headers@, w) + "\n"@ + "  "@ + join(
                Seq::new(w.len(), |j: int| dashes(w[j])),
                "  "@,
            ) + "\n"@ + text_rows(rows@, w) + "\n"@
        },
        SectionContent::Text(t) => indented(lines_of(t@)) + "\n"@,
    }
}

pub open spec fn text_sections(ss: Seq<ReportSection>) -> Seq<char>
    decreases ss.len(),
{
    if ss.len() == 0 {
        Seq::empty()
    } else {
        text_sections(ss.drop_last()) + "--- "@ + ss.last().title@ + " ---\n\n"@ + text_content(
            ss.last().content,
        )
    }
}

/// The plain-text rendering of a report.
pub open spec fn text_spec(
    title: Seq<char>,
    description: Option<Seq<char>>,
    generated_at: Seq<char>,
    ss: Seq<ReportSection>,
) -> Seq<char> {
    Seq::new(60, |i: int| '=') + "\n"@ + "  "@ + title + "\n"@ + Seq::new(60, |i: int| '=')
        + "\n\n"@ + match description {
        Some(d) => d + "\n\n"@,
        None => Seq::empty(),
    } + "Generated: "@ + generated_at + "\n\n"@ + text_sections(ss)
}

fn push_n(out: &mut String, c: char, n: usize)
    ensures
        final(out)@ == old(out)@ + Seq::new(n as nat, |i: int| c),
{
    let mut k: usize = 0;
    while k < n
        invariant
            k <= n,
            out@ == old(out)@ + Seq::new(k as nat, |i: int| c),
        decreases n - k,
    {
        push_char(out, c);
        k = k + 1;
        assert(out@ =~= old(out)@ + Seq::new(k as nat, |i: int| c));
    }
}

fn push_padded(out: &mut String, s: &str, w: usize)
    ensures
        final(out)@ == old(out)@ + pad_right(s@, w as nat),
{
    out.append(s);
    let n = s.unicode_len();
    if n < w {
        push_n(out, ' ', w - n);
    }
    assert(final(out)@ =~= old(out)@ + pad_right(s@, w as nat));
}

fn push_padded_line(out: &mut String, cells: &Vec<String>, widths: &Vec<usize>)
    ensures
        final(out)@ == old(out)@ + padded_line(cells@, widths@.map_values(|w: usize| w as nat)),
{
    let ghost ws = widths@.map_values(|w: usize| w as nat);
    let n = if cells.len() < widths.len() {
        cells.len()
    } else {
        widths.len()
    };
    let mut j: usize = 0;
    while j < n
        invariant
            j <= n,
            n <= cells@.len(),
            n <= widths@.len(),
            ws == widths@.map_values(|w: usize| w as nat),
            out@ == old(out)@ + join(Seq::new(j as nat, |k: int| pad_right(cells@[k]@, ws[k])), "  "@),
        decreases n - j,
    {
        assert(Seq::new((j + 1) as nat, |k: int| pad_right(cells@[k]@, ws[k])).drop_last()
            =~= Seq::new(j as nat, |k: int| pad_right(cells@[k]@, ws[k])));
        if j > 0 {
            out.append("  ");
        }
        push_padded(out, cells[j].as_str(), widths[j]);
        j = j + 1;
        assert(out@ =~= old(out)@ + join(Seq::new(j as nat, |k: int| pad_right(cells@[k]@, ws[k])), "  "@));
    }
}

fn push_text_kv(out: &mut String, items: &Vec<(String, String)>)
    ensures
        final(out)@ == old(out)@ + text_content(SectionContent::KeyValue(*items)),
{
    let mut w: usize = 0;
    let mut i: usize = 0;
    while i < items.len()
        invariant
            i <= items@.len(),
            w == key_width(items@, i as int),
        decreases items@.len() - i,
    {
        let l = items[i].0.as_str().unicode_len();
        if l > w {
            w = l;
        }
        i = i + 1;
    }
    let ghost start = out@;
    let mut i: usize = 0;
    while i < items.len()
        invariant
            i <= items@.len(),
            w == key_width(items@, items@.len() as int),
            out@ == start + text_kv(items@.take(i as int), w as nat),
        decreases items@.len() - i,
    {
        assert(items@.take(i as int + 1).drop_last() =~= items@.take(i as int));
        out.append("  ");
        push_padded(out, items[i].0.as_str(), w);
        out.append("  ");
        out.append(items[i].1.as_str());
        out.append("\n");
        i = i + 1;
        assert(out@ =~= start + text_kv(items@.take(i as int), w as nat));
    }
    assert(items@.take(items@.len() as int) =~= items@);
    out.append("\n");
}

fn column_widths(headers: &Vec<String>, rows: &Vec<Vec<String>>) -> (r: Vec<usize>)
    ensures
        r@.map_values(|x: usize| x as nat) == widths_spec(headers@, rows@),
{
    let mut widths: Vec<usize> = Vec::new();
    let mut i: usize = 0;
    while i < headers.len()
        invariant
            i <= headers@.len(),
            widths@.len() == i,
            forall|k: int| 0 <= k < i ==> #[trigger] widths@[k] == headers@[k]@.len(),
        decreases headers@.len() - i,
    {
        widths.push(headers[i].as_str().unicode_len());
        i = i + 1;
    }
    let mut r: usize = 0;
    while r < rows.len()
        invariant
            r <= rows@.len(),
            widths@.len() == headers@.len(),
            forall|k: int|
                0 <= k < widths@.len() ==> #[trigger] widths@[k] == col_width(
                    rows@,
                    k,
                    r as int,
                    headers@[k]@.len(),
                ),
        decreases rows@.len() - r,
    {
        let row = &rows[r];
        let mut i: usize = 0;
        while i < row.len() && i < widths.len()
            invariant
                row == &rows@[r as int],
                r < rows@.len(),
                i <= widths@.len(),
                widths@.len() == headers@.len(),
                forall|k: int|
                    0 <= k < i ==> #[trigger] widths@[k] == col_width(
                        rows@,
                        k,
                        r + 1,
                        headers@[k]@.len(),
                    ),
                forall|k: int|
                    i <= k < widths@.len() ==> #[trigger] widths@[k] == col_width(
                        rows@,
                        k,
                        r as int,
                        headers@[k]@.len(),
                    ),
            decreases widths@.len() - i,
        {
            let l = row[i].as_str().unicode_len();
            if l > widths[i] {
                widths.set(i, l);
            }
            i = i + 1;
        }
        proof {
            assert forall|k: int| i <= k < widths@.len() implies #[trigger] widths@[k]
                == col_width(rows@, k, r + 1, headers@[k]@.len()) by {
                assert(k >= row@.len());
            }
        }
        r = r + 1;
    }
    assert(widths@.map_values(|x: usize| x as nat) =~= widths_spec(headers@, rows@));
    widths
}

fn push_dash_line(out: &mut String, widths: &Vec<usize>)
    ensures
        final(out)@ == old(out)@ + join(
            Seq::new(widths@.len(), |k: int| dashes(widths@.map_values(|x: usize| x as nat)[k])),
            "  "@,
        ),
{
    let ghost w = widths@.map_values(|x: usize| x as nat);
    let ghost mid = out@;
    let mut j: usize = 0;
    while j < widths.len()
        invariant
            j <= widths@.len(),
            w == widths@.map_values(|x: usize| x as nat),
            mid == old(out)@,
            out@ == mid + join(Seq::new(j as nat, |k: int| dashes(w[k])), "  "@),
        decreases widths@.len() - j,
    {
        assert(Seq::new((j + 1) as nat, |k: int| dashes(w[k])).drop_last() =~= Seq::new(
            j as nat,
            |k: int| dashes(w[k]),
        ));
        if j > 0 {
            out.append("  ");
        }
        push_n(out, '-', widths[j]);
        j = j + 1;
        assert(out@ =~= mid + join(Seq::new(j as nat, |k: int| dashes(w[k])), "  "@));
    }
    assert(Seq::new(widths@.len(), |k: int| dashes(w[k])) =~= Seq::new(j as nat, |k: int| dashes(w[k])));
}

fn push_text_table(out: &mut String, headers: &Vec<String>, rows: &Vec<Vec<String>>)
    ensures
        final(out)@ == old(out)@ + text_content(
            SectionContent::Table { headers: *headers, rows: *rows },
        ),
{
    let widths = column_widths(headers, rows);
    let ghost w = widths_spec(headers@, rows@);
    out.append("  ");
    push_padded_line(out, headers, &widths);
    out.append("\n");
    out.append("  ");
    push_dash_line(out, &widths);
    out.append("\n");
    let ghost start = out@;
    let mut i: usize = 0;
    while i < rows.len()
        invariant
            i <= rows@.len(),
            w == widths@.map_values(|x: usize| x as nat),
            out@ == start + text_rows(rows@.take(i as int), w),
        decreases rows@.len() - i,
    {
        assert(rows@.take(i as int + 1).drop_last() =~= rows@.take(i as int));
        out.append("  ");
        push_padded_line(out, &rows[i], &widths);
        out.append("\n");
        i = i + 1;
        assert(out@ =~= start + text_rows(rows@.take(i as int), w));
    }
    assert(rows@.take(rows@.len() as int) =~= rows@);
    out.append("\n");
    assert(out@ =~= old(out)@ + text_content(
        SectionContent::Table { headers: *headers, rows: *rows },
    ));
}

fn push_text_lines(out: &mut String, t: &String)
    ensures
        final(out)@ == old(out)@ + text_content(SectionContent::Text(*t)),
{
    let cs = chars_of(t.as_str());
    let n = cs.len();
    let parts = split_ranges(&cs, 0, n, '\n');
    assert(cs@.subrange(0, n as int) =~= t@);
    proof {
        crate::ports::lemma_split_len(t@, '\n');
    }
    let last = parts.len() - 1;
    let (la, lb) = parts[last];
    let count = if la == lb {
        last
    } else {
        parts.len()
    };
    let ghost ps = split_on(t@, '\n');
    assert(ps.last() == ps[last as int]);
    assert(lines_of(t@).len() == count);
    let ghost start = out@;
    let mut k: usize = 0;
    while k < count
        invariant
            k <= count,
            count == lines_of(t@).len(),
            count <= parts@.len(),
            parts@.len() == ps.len(),
            ps == split_on(t@, '\n'),
            n == cs@.len(),
            forall|j: int|
                0 <= j < parts@.len() ==> {
                    &&& 0 <= (#[trigger] parts@[j]).0 <= parts@[j].1 <= n
                    &&& cs@.subrange(parts@[j].0 as int, parts@[j].1 as int) == ps[j]
                },
            out@ == start + indented(lines_of(t@).take(k as int)),
        decreases count - k,
    {
        let (a, b0) = parts[k];
        let b = if k + 1 < parts.len() && b0 > a && cs[b0 - 1] == '\r' {
            b0 - 1
        } else {
            b0
        };
        assert(cs@.subrange(a as int, b as int) =~= line_at(ps, k as int));
        assert(lines_of(t@)[k as int] == line_at(ps, k as int));
        assert(lines_of(t@).take(k as int + 1).drop_last() =~= lines_of(t@).take(k as int));
        out.append("  ");
        let line = string_of(&cs, a, b);
        out.append(line.as_str());
        out.append("\n");
        k = k + 1;
        assert(out@ =~= start + indented(lines_of(t@).take(k as int)));
    }
    assert(lines_of(t@).take(count as int) =~= lines_of(t@));
    out.append("\n");
    assert(out@ =~= old(out)@ + text_content(SectionContent::Text(*t)));
}

fn push_text_content(out: &mut String, c: &SectionContent)
    ensures
        final(out)@ == old(out)@ + text_content(*c),
{
    match c {
        SectionContent::KeyValue(items) => push_text_kv(out, items),
        SectionContent::Table { headers, rows } => push_text_table(out, headers, rows),
        SectionContent::Text(t) => push_text_lines(out, t),
    }
}

/// A report: title, optional description, and generation time.
#[derive(Debug, Clone)]
pub struct ReportGenerator {
    title: String,
    description: Option<String>,
    generated_at: String,
}

impl ReportGenerator {
    pub closed spec fn title_spec(&self) -> Seq<char> {
        self.title@
    }

    pub closed spec fn description_spec(&self) -> Option<Seq<char>> {
        match self.description {
            Some(d) => Some(d@),
            None => None,
        }
    }

    pub closed spec fn generated_at_spec(&self) -> Seq<char> {
        self.generated_at@
    }

    /// A report titled `title`, stamped with the current time.
    pub fn new(title: &str) -> (r: Self)
        ensures
            r.title_spec() == title@,
            r.description_spec() is None,
    {
        ReportGenerator {
            title: String::from_str(title),
            description: None,
            generated_at: now_rfc3339(),
        }
    }

    /// A report with a given generation stamp.
    pub fn with_timestamp(title: &str, generated_at: &str) -> (r: Self)
        ensures
            r.title_spec() == title@,
            r.description_spec() is None,
            r.generated_at_spec() == generated_at@,
    {
        ReportGenerator {
            title: String::from_str(title),
            description: None,
            generated_at: String::from_str(generated_at),
        }
    }

    pub fn with_description(self, description: &str) -> (r: Self)
        ensures
            r.title_spec() == self.title_spec(),
            r.generated_at_spec() == self.generated_at_spec(),
            r.description_spec() == Some(description@),
    {
        ReportGenerator { description: Some(String::from_str(description)), ..self }
    }

    pub fn title(&self) -> (r: &str)
        ensures
            r@ == self.title_spec(),
    {
        self.title.as_str()
    }

    pub fn description(&self) -> (r: Option<&str>)
        ensures
            match (r, self.description_spec()) {
                (Some(a), Some(b)) => a@ == b,
                (None, None) => true,
                _ => false,
            },
    {
        match &self.description {
            Some(d) => Some(d.as_str()),
            None => None,
        }
    }

    /// CSV of a table: header line, then the rows; fields holding a comma,
    /// quote or newline are quoted with quotes doubled.
    pub fn to_csv(&self, headers: &Vec<&str>, rows: &Vec<Vec<String>>) -> (r: Result<
        String,
        NelstError,
    >)
        ensures
            r matches Ok(s) && s@ == csv_spec(headers@.map_values(|h: &str| h@), rows@),
    {
        let mut out = String::new();
        push_joined_strs(&mut out, headers, ",");
        out.append("\n");
        let ghost head = out@;
        let mut i: usize = 0;
        while i < rows.len()
            invariant
                i <= rows@.len(),
                out@ == head + csv_rows(rows@.take(i as int)),
            decreases rows@.len() - i,
        {
            assert(rows@.take(i as int + 1).drop_last() =~= rows@.take(i as int));
            push_csv_row(&mut out, &rows[i]);
            i = i + 1;
        }
        assert(rows@.take(rows@.len() as int) =~= rows@);
        Ok(out)
    }
    /// The report as a standalone HTML page with inlined styles; every
    /// user-supplied text is HTML-escaped.
    pub fn to_html(&self, sections: &Vec<ReportSection>) -> (r: Result<String, NelstError>)
        ensures
            r matches Ok(s) && s@ == html_spec(
                self.title_spec(),
                self.description_spec(),
                self.generated_at_spec(),
                sections@,
            ),
    {
        let mut out = String::new();
        out.append("<!DOCTYPE html>\n");
        out.append("<html lang=\"en\">\n");
        out.append("<head>\n");
        out.append("  <meta charset=\"UTF-8\">\n");
        out.append("  <meta name=\"viewport\" content=\"width=device-width, initial-scale=1.0\">\n");
        out.append("  <title>");
        push_escaped(&mut out, self.title.as_str());
        out.append("</title>\n");
        out.append("  <style>\n");
        out.append(CSS_STYLES);
        out.append("  </style>\n");
        out.append("</head>\n");
        out.append("<body>\n");
        out.append("  <div class=\"container\">\n");
        out.append("    <h1>");
        push_escaped(&mut out, self.title.as_str());
        out.append("</h1>\n");
        match &self.description {
            Some(d) => {
                out.append("    <p class=\"description\">");
                push_escaped(&mut out, d.as_str());
                out.append("</p>\n");
            },
            None => {},
        }
        out.append("    <p class=\"meta\">Generated: ");
        out.append(self.generated_at.as_str());
        out.append("</p>\n");
        let ghost start = out@;
        let mut i: usize = 0;
        while i < sections.len()
            invariant
                i <= sections@.len(),
                out@ == start + html_sections(sections@.take(i as int)),
            decreases sections@.len() - i,
        {
            assert(sections@.take(i as int + 1).drop_last() =~= sections@.take(i as int));
            out.append("    <h2>");
            push_escaped(&mut out, sections[i].title.as_str());
            out.append("</h2>\n");
            push_html_content(&mut out, &sections[i].content);
            i = i + 1;
            assert(out@ =~= start + html_sections(sections@.take(i as int)));
        }
        assert(sections@.take(sections@.len() as int) =~= sections@);
        out.append("  </div>\n");
        out.append("</body>\n");
        out.append("</html>\n");
        assert(out@ =~= html_spec(
            self.title_spec(),
            self.description_spec(),
            self.generated_at_spec(),
            sections@,
        ));
        Ok(out)
    }

    /// The report as Markdown: title, description, generation time, then
    /// each section as a heading with a list, a table or a code block.
    pub fn to_markdown(&self, sections: &Vec<ReportSection>) -> (r: Result<String, NelstError>)
        ensures
            r matches Ok(s) && s@ == markdown_spec(
                self.title_spec(),
                self.description_spec(),
                self.generated_at_spec(),
                sections@,
            ),
    {
        let mut out = String::new();
        out.append("# ");
        out.append(self.title.as_str());
        out.append("\n\n");
        match &self.description {
            Some(d) => {
                out.append(d.as_str());
                out.append("\n\n");
            },
            None => {},
        }
        out.append("*Generated: ");
        out.append(self.generated_at.as_str());
        out.append("*\n\n");
        let ghost start = out@;
        let mut i: usize = 0;
        while i < sections.len()
            invariant
                i <= sections@.len(),
                out@ == start + md_sections(sections@.take(i as int)),
            decreases sections@.len() - i,
        {
            assert(sections@.take(i as int + 1).drop_last() =~= sections@.take(i as int));
            out.append("## ");
            out.append(sections[i].title.as_str());
            out.append("\n\n");
            push_md_content(&mut out, &sections[i].content);
            i = i + 1;
            assert(out@ =~= start + md_sections(sections@.take(i as int)));
        }
        assert(sections@.take(sections@.len() as int) =~= sections@);
        assert(out@ =~= markdown_spec(
            self.title_spec(),
            self.description_spec(),
            self.generated_at_spec(),
            sections@,
        ));
        Ok(out)
    }
    /// The report as aligned plain text: a banner with the title, then each
    /// section under `--- <title> ---`.
    pub fn to_text(&self, sections: &Vec<ReportSection>) -> (r: Result<String, NelstError>)
        ensures
            r matches Ok(s) && s@ == text_spec(
                self.title_spec(),
                self.description_spec(),
                self.generated_at_spec(),
                sections@,
            ),
    {
        let mut out = String::new();
        push_n(&mut out, '=', 60);
        out.append("\n");
        out.append("  ");
        out.append(self.title.as_str());
        out.append("\n");
        push_n(&mut out, '=', 60);
        out.append("\n\n");
        match &self.description {
            Some(d) => {
                out.append(d.as_str());
                out.append("\n\n");
            },
            None => {},
        }
        out.append("Generated: ");
        out.append(self.generated_at.as_str());
        out.append("\n\n");
        let ghost start = out@;
        let mut i: usize = 0;
        while i < sections.len()
            invariant
                i <= sections@.len(),
                out@ == start + text_sections(sections@.take(i as int)),
            decreases sections@.len() - i,
        {
            assert(sections@.take(i as int + 1).drop_last() =~= sections@.take(i as int));
            out.append("--- ");
            out.append(sections[i].title.as_str());
            out.append(" ---\n\n");
            push_text_content(&mut out, &sections[i].content);
            i = i + 1;
            assert(out@ =~= start + text_sections(sections@.take(i as int)));
        }
        assert(sections@.take(sections@.len() as int) =~= sections@);
        assert(out@ =~= text_spec(
            self.title_spec(),
            self.description_spec(),
            self.generated_at_spec(),
            sections@,
        ));
        Ok(out)
    }

    /// The report rendered in a document format: HTML, Markdown or text.
    /// JSON and CSV carry data rather than sections, so they are a
    /// configuration error here.
    pub fn render(&self, format: ReportFormat, sections: &Vec<ReportSection>) -> (r: Result<
        String,
        NelstError,
    >)
        ensures
            format == ReportFormat::Html ==> (r matches Ok(s) && s@ == html_spec(
                self.title_spec(),
                self.description_spec(),
                self.generated_at_spec(),
                sections@,
            )),
            format == ReportFormat::Markdown ==> (r matches Ok(s) && s@ == markdown_spec(
                self.title_spec(),
                self.description_spec(),
                self.generated_at_spec(),
                sections@,
            )),
            format == ReportFormat::Text ==> (r matches Ok(s) && s@ == text_spec(
                self.title_spec(),
                self.description_spec(),
                self.generated_at_spec(),
                sections@,
            )),
            (format == ReportFormat::Json || format == ReportFormat::Csv) ==> (r matches Err(
                NelstError::Config { message },
            ) && message@ == "Use to_json or to_csv for JSON/CSV formats"@),
    {
        match format {
            ReportFormat::Html => self.to_html(sections),
            ReportFormat::Markdown => self.to_markdown(sections),
            ReportFormat::Text => self.to_text(sections),
            _ => Err(NelstError::config("Use to_json or to_csv for JSON/CSV formats")),
        }
    }
}

} // verus!
