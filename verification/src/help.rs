//! The help text: a table of the parameters, laid out for a terminal of a
//! given width.
//!
//! Widths are counted in characters. The text of a real-valued default is
//! made by the caller, who can print a double; every other text is made
//! here.

use vstd::prelude::*;
use vstd::string::StringExecFns;
use vstd::string::StrSliceExecFns;
use crate::config::{digits_of, params_of, size_text, ArgType, ArgView, CmdlineArgument, ParamView};
use crate::text::texts;

verus! {

/// The words of a text as `str::split_whitespace` yields them.
pub uninterp spec fn words_of(s: Seq<char>) -> Seq<Seq<char>>;

/// `str::split_whitespace`, each word copied into a string: the words of
/// the text in order.
#[verifier::external_body]
fn split_words(s: &str) -> (r: Vec<String>)
    ensures
        texts(r@) == words_of(s@),
{
    s.split_whitespace().map(String::from).collect()
}

/// `n` copies of the character `c`.
pub open spec fn run(c: char, n: nat) -> Seq<char> {
    Seq::new(n, |i: int| c)
}

/// A text padded with spaces on the right to at least `width` characters.
pub open spec fn padded(s: Seq<char>, width: nat) -> Seq<char> {
    if s.len() >= width {
        s
    } else {
        s + run(' ', (width - s.len()) as nat)
    }
}

/// The text shown for a default: a text in double quotes, a count in
/// decimal, a real number as the given text `number`, and `-` where there is
/// no default.
pub open spec fn default_text(d: ArgView, number: Seq<char>) -> Seq<char> {
    match d {
        ArgView::StringType(Some(s)) => seq!['"'] + s + seq!['"'],
        ArgView::FloatingNumber(Some(_)) => number,
        ArgView::SizeType(Some(n)) => digits_of(n as nat),
        _ => seq!['-'],
    }
}

/// The description of a parameter, wrapped greedily: the words from
/// position `from` on, when the line already holds `cur` characters. A word
/// that would pass `term_width` starts a new line, indented by `indent + 1`
/// spaces. Every word is followed by one space, and the text ends with a
/// line break.
pub open spec fn wrapped(
    words: Seq<Seq<char>>,
    from: int,
    cur: nat,
    indent: nat,
    term_width: nat,
) -> Seq<char>
    decreases words.len() - from,
{
    if from < 0 || from >= words.len() {
        seq!['\n']
    } else {
        let w = words[from];
        if cur + w.len() > term_width {
            seq!['\n'] + run(' ', indent + 1) + w + seq![' '] + wrapped(
                words,
                from + 1,
                indent + w.len() + 1,
                indent,
                term_width,
            )
        } else {
            w + seq![' '] + wrapped(words, from + 1, cur + w.len() + 1, indent, term_width)
        }
    }
}

/// One row of the table: a space, the parameter in a column of
/// `param_width`, its default in a column of `default_width`, then the
/// wrapped description.
pub open spec fn row_text(
    name: Seq<char>,
    default: Seq<char>,
    words: Seq<Seq<char>>,
    term_width: nat,
    param_width: nat,
    default_width: nat,
) -> Seq<char> {
    seq![' '] + padded(name, param_width) + padded(default, default_width) + wrapped(
        words,
        0,
        param_width + default_width,
        param_width + default_width,
        term_width,
    )
}

/// Why no help text can be laid out.
#[derive(Clone, Copy, Debug, PartialEq, Eq)]
pub enum HelpError {
    /// The first two columns alone are wider than the terminal.
    TooNarrow,
}

/// Appends `count` copies of the one-character text `piece`.
fn push_run(out: &mut String, piece: &str, count: usize)
    requires
        piece@.len() == 1,
    ensures
        final(out)@ == old(out)@ + run(piece@[0], count as nat),
{
    let mut i: usize = 0;
    while i < count
        invariant
            i <= count,
            piece@.len() == 1,
            out@ == old(out)@ + run(piece@[0], i as nat),
        decreases count - i,
    {
        out.append(piece);
        i = i + 1;
    }
}

/// Appends `text`, padded with spaces to `width` characters.
fn push_padded(out: &mut String, text: &str, width: usize)
    ensures
        final(out)@ == old(out)@ + padded(text@, width as nat),
{
    let len = text.unicode_len();
    out.append(text);
    if len < width {
        proof {
            reveal_strlit(" ");
        }
        push_run(out, " ", width - len);
    }
}

/// The text shown for the default of a parameter, see `default_text`.
/// `number` is the text of the default where it is a real number, and is
/// not looked at otherwise.
pub fn get_default_str(arg: &CmdlineArgument, number: &str) -> (r: String)
    ensures
        r@ == default_text(arg@.default, number@),
{
    proof {
        reveal_strlit("\"");
        reveal_strlit("-");
    }
    match &arg.default {
        ArgType::StringType(Some(s)) => {
            let mut out = String::from_str("\"");
            out.append(s.as_str());
            out.append("\"");
            out
        },
        ArgType::FloatingNumber(Some(_)) => String::from_str(number),
        ArgType::SizeType(Some(n)) => size_text(*n),
        _ => String::from_str("-"),
    }
}

/// Appends the wrapped description made of `words`, see `wrapped`. The
/// line holds `indent` characters when the first word is placed.
pub fn push_wrapped(out: &mut String, words: &Vec<String>, indent: usize, term_width: usize)
    ensures
        final(out)@ == old(out)@ + wrapped(
            texts(words@),
            0,
            indent as nat,
            indent as nat,
            term_width as nat,
        ),
{
    proof {
        reveal_strlit(" ");
        reveal_strlit("\n");
    }
    let n = words.len();
    let ghost ws = texts(words@);
    let mut cur: u128 = indent as u128;
    let mut i: usize = 0;
    while i < n
        invariant
            i <= n,
            n == words.len(),
            ws == texts(words@),
            " "@ == seq![' '],
            "\n"@ == seq!['\n'],
            cur <= 2 * usize::MAX + 2,
            out@ + wrapped(ws, i as int, cur as nat, indent as nat, term_width as nat) == old(out)@
                + wrapped(ws, 0, indent as nat, indent as nat, term_width as nat),
        decreases n - i,
    {
        let word = words[i].as_str();
        let len = word.unicode_len();
        if cur + len as u128 > term_width as u128 {
            out.append("\n");
            push_run(out, " ", indent);
            out.append(" ");
            cur = indent as u128;
        }
        out.append(word);
        out.append(" ");
        cur = cur + len as u128 + 1;
        i = i + 1;
    }
    out.append("\n");
}

/// One row of the table, see `row_text`: `TooNarrow` where the two columns
/// are wider than the terminal, the text of the row otherwise.
pub fn row_str(
    name: &str,
    default: &str,
    words: &Vec<String>,
    term_width: usize,
    param_width: usize,
    default_width: usize,
) -> (r: Result<String, HelpError>)
    ensures
        match r {
            Ok(s) => term_width >= param_width + default_width && s@ == row_text(
                name@,
                default@,
                texts(words@),
                term_width as nat,
                param_width as nat,
                default_width as nat,
            ),
            Err(e) => term_width < param_width + default_width && e == HelpError::TooNarrow,
        },
{
    if (term_width as u128) < param_width as u128 + default_width as u128 {
        return Err(HelpError::TooNarrow);
    }
    proof {
        reveal_strlit(" ");
    }
    let mut out = String::from_str(" ");
    push_padded(&mut out, name, param_width);
    push_padded(&mut out, default, default_width);
    push_wrapped(&mut out, words, param_width + default_width, term_width);
    Ok(out)
}

/// The row of one parameter: its key, the text of its default, and its
/// description split into words.
pub fn description_str(
    arg: &CmdlineArgument,
    number: &str,
    term_width: usize,
    param_width: usize,
    default_width: usize,
) -> (r: Result<String, HelpError>)
    ensures
        match r {
            Ok(s) => term_width >= param_width + default_width && s@ == row_text(
                arg@.cmdline_expr,
                default_text(arg@.default, number@),
                words_of(arg@.description),
                term_width as nat,
                param_width as nat,
                default_width as nat,
            ),
            Err(e) => term_width < param_width + default_width && e == HelpError::TooNarrow,
        },
{
    let default = get_default_str(arg, number);
    let words = split_words(arg.description);
    row_str(arg.cmdline_expr, default.as_str(), &words, term_width, param_width, default_width)
}

/// What one row of the table is made of.
#[derive(Debug)]
pub struct HelpRow {
    pub name: String,
    pub default: String,
    pub words: Vec<String>,
}

/// A `HelpRow` with text in place of strings.
pub struct HelpRowView {
    pub name: Seq<char>,
    pub default: Seq<char>,
    pub words: Seq<Seq<char>>,
}

impl View for HelpRow {
    type V = HelpRowView;

    open spec fn view(&self) -> HelpRowView {
        HelpRowView { name: self.name@, default: self.default@, words: texts(self.words@) }
    }
}

/// The views of a vector of rows.
pub open spec fn rows_of_help(rows: Seq<HelpRow>) -> Seq<HelpRowView> {
    Seq::new(rows.len(), |i: int| rows[i]@)
}

/// The length of the longest name of the first `n` rows.
pub open spec fn longest_name(rows: Seq<HelpRowView>, n: int) -> nat
    decreases n,
{
    if n <= 0 {
        0
    } else {
        let rest = longest_name(rows, n - 1);
        if rows[n - 1].name.len() > rest {
            rows[n - 1].name.len()
        } else {
            rest
        }
    }
}

/// The length of the longest default text of the first `n` rows.
pub open spec fn longest_default(rows: Seq<HelpRowView>, n: int) -> nat
    decreases n,
{
    if n <= 0 {
        0
    } else {
        let rest = longest_default(rows, n - 1);
        if rows[n - 1].default.len() > rest {
            rows[n - 1].default.len()
        } else {
            rest
        }
    }
}

/// The width of the parameter column: two more than the longest name, and
/// 11 where that is less than the 9 characters of the column's title.
pub open spec fn param_column(rows: Seq<HelpRowView>) -> nat {
    let w = longest_name(rows, rows.len() as int) + 2;
    if w < 9 {
        11
    } else {
        w
    }
}

/// The width of the default column: two more than the longest default text.
pub open spec fn default_column(rows: Seq<HelpRowView>) -> nat {
    longest_default(rows, rows.len() as int) + 2
}

/// The lines above the rows: two lines of usage, the titles of the three
/// columns, and a rule of dashes across the terminal.
pub open spec fn heading(term_width: nat, param_width: nat, default_width: nat) -> Seq<char> {
    "USAGE: \n"@ + "Parameters without default values are required parameters.\n"@ + seq![' ']
        + padded("Parameter"@, param_width) + padded("Default"@, default_width) + "Description\n"@
        + run('-', term_width) + seq!['\n']
}

/// The first `n` rows of the table, one after another.
pub open spec fn rows_text(
    rows: Seq<HelpRowView>,
    n: int,
    term_width: nat,
    param_width: nat,
    default_width: nat,
) -> Seq<char>
    decreases n,
{
    if n <= 0 {
        Seq::empty()
    } else {
        rows_text(rows, n - 1, term_width, param_width, default_width) + row_text(
            rows[n - 1].name,
            rows[n - 1].default,
            rows[n - 1].words,
            term_width,
            param_width,
            default_width,
        )
    }
}

/// The help text of `rows` for a terminal of `term_width` characters: the
/// heading, then one row per parameter, in columns as wide as `param_column`
/// and `default_column` say. Where there is a row and the two columns
/// together are wider than the terminal, there is no text.
pub open spec fn help_of(rows: Seq<HelpRowView>, term_width: nat) -> Result<Seq<char>, HelpError> {
    let pw = param_column(rows);
    let dw = default_column(rows);
    if rows.len() > 0 && term_width < pw + dw {
        Err(HelpError::TooNarrow)
    } else {
        Ok(heading(term_width, pw, dw) + rows_text(rows, rows.len() as int, term_width, pw, dw))
    }
}

/// Whether `r` is the outcome `want`, text for text.
pub open spec fn is_outcome(r: Result<String, HelpError>, want: Result<Seq<char>, HelpError>) -> bool {
    match r {
        Ok(s) => want == Ok::<Seq<char>, HelpError>(s@),
        Err(e) => want == Err::<Seq<char>, HelpError>(e),
    }
}

/// The help text of `rows` for a terminal of `term_width` characters, see
/// `help_of`.
pub fn help_text(rows: &Vec<HelpRow>, term_width: usize) -> (r: Result<String, HelpError>)
    ensures
        is_outcome(r, help_of(rows_of_help(rows@), term_width as nat)),
{
    let n = rows.len();
    let ghost views = rows_of_help(rows@);
    let mut name_len: usize = 0;
    let mut default_len: usize = 0;
    let mut i: usize = 0;
    while i < n
        invariant
            i <= n,
            n == rows.len(),
            views == rows_of_help(rows@),
            name_len == longest_name(views, i as int),
            default_len == longest_default(views, i as int),
        decreases n - i,
    {
        let a = rows[i].name.as_str().unicode_len();
        let b = rows[i].default.as_str().unicode_len();
        if name_len < a {
            name_len = a;
        }
        if default_len < b {
            default_len = b;
        }
        i = i + 1;
    }
    let wide_param: u128 = if name_len as u128 + 2 < 9 {
        11
    } else {
        name_len as u128 + 2
    };
    let wide_default: u128 = default_len as u128 + 2;
    if n > 0 && (term_width as u128) < wide_param + wide_default {
        return Err(HelpError::TooNarrow);
    }
    proof {
        reveal_strlit(" ");
        reveal_strlit("-");
        reveal_strlit("\n");
    }
    let param_width: usize = wide_param as usize;
    let default_width: usize = wide_default as usize;
    let mut out = String::from_str("USAGE: \n");
    out.append("Parameters without default values are required parameters.\n");
    out.append(" ");
    push_padded(&mut out, "Parameter", param_width);
    push_padded(&mut out, "Default", default_width);
    out.append("Description\n");
    push_run(&mut out, "-", term_width);
    out.append("\n");
    assert(out@ =~= heading(term_width as nat, param_width as nat, default_width as nat));
    let ghost head = out@;
    let mut i: usize = 0;
    while i < n
        invariant
            i <= n,
            n == rows.len(),
            views == rows_of_help(rows@),
            n > 0 ==> term_width >= param_width + default_width,
            out@ == head + rows_text(
                views,
                i as int,
                term_width as nat,
                param_width as nat,
                default_width as nat,
            ),
        decreases n - i,
    {
        let row = &rows[i];
        let line = row_str(
            row.name.as_str(),
            row.default.as_str(),
            &row.words,
            term_width,
            param_width,
            default_width,
        );
        match line {
            Ok(line) => {
                out.append(line.as_str());
            },
            Err(e) => {
                return Err(e);
            },
        }
        i = i + 1;
    }
    Ok(out)
}

/// The text given for the default of parameter `x`; a parameter for which
/// the caller gave none has the empty text.
pub open spec fn number_text(numbers: Seq<Seq<char>>, x: int) -> Seq<char> {
    if 0 <= x < numbers.len() {
        numbers[x]
    } else {
        Seq::empty()
    }
}

/// The row of the help table for each parameter: its key, the text of its
/// default, and the words of its description. `numbers[x]` is the text of
/// the default of parameter `x` where that is a real number.
pub open spec fn help_rows_of(conf: Seq<ParamView>, numbers: Seq<Seq<char>>) -> Seq<HelpRowView> {
    Seq::new(
        conf.len(),
        |x: int|
            HelpRowView {
                name: conf[x].cmdline_expr,
                default: default_text(conf[x].default, number_text(numbers, x)),
                words: words_of(conf[x].description),
            },
    )
}

/// The rows of the help table for the given parameters, see `help_rows_of`.
pub fn help_rows(conf: &Vec<CmdlineArgument>, numbers: &Vec<String>) -> (rows: Vec<HelpRow>)
    ensures
        rows_of_help(rows@) == help_rows_of(params_of(conf@), texts(numbers@)),
{
    let n = conf.len();
    let mut rows: Vec<HelpRow> = Vec::new();
    let mut x: usize = 0;
    while x < n
        invariant
            x <= n,
            n == conf.len(),
            rows.len() == x,
            forall|y: int|
                0 <= y < x ==> (#[trigger] rows[y])@ == help_rows_of(
                    params_of(conf@),
                    texts(numbers@),
                )[y],
        decreases n - x,
    {
        let arg = &conf[x];
        proof {
            reveal_strlit("");
        }
        let number = if x < numbers.len() {
            numbers[x].as_str()
        } else {
            ""
        };
        assert(number@ =~= number_text(texts(numbers@), x as int));
        let row = HelpRow {
            name: String::from_str(arg.cmdline_expr),
            default: get_default_str(arg, number),
            words: split_words(arg.description),
        };
        rows.push(row);
        x = x + 1;
    }
    rows
}

/// The help text for the given parameters on a terminal of `term_width`
/// characters: the table of `help_rows_of`, laid out as `help_of` says.
pub fn help_str(conf: &Vec<CmdlineArgument>, numbers: &Vec<String>, term_width: usize) -> (r: Result<
    String,
    HelpError,
>)
    ensures
        is_outcome(
            r,
            help_of(help_rows_of(params_of(conf@), texts(numbers@)), term_width as nat),
        ),
{
    let rows = help_rows(conf, numbers);
    help_text(&rows, term_width)
}

} // verus!
