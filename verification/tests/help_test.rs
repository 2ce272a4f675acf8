use fuzzy_cmeans::config::{defaults, parse_size, size_text, ArgType, CmdlineArgument};
use fuzzy_cmeans::help::{
    description_str, get_default_str, help_rows, help_str, help_text, push_wrapped, row_str,
    HelpError, HelpRow,
};

fn words(text: &str) -> Vec<String> {
    text.split_whitespace().map(String::from).collect()
}

fn number_texts(conf: &[CmdlineArgument]) -> Vec<String> {
    conf.iter()
        .map(|p| match p.default.get_flt() {
            Ok(bits) => format!("{}", f64::from_bits(bits)),
            Err(()) => String::new(),
        })
        .collect()
}

fn laid_out(arg: &CmdlineArgument, default: &str, term: usize, pw: usize, dw: usize) -> String {
    let mut out = format!(" {: <1$}", arg.cmdline_expr, pw);
    out += &format!("{: <1$}", default, dw);
    let mut cur_len = dw + pw;
    for word in arg.description.split_whitespace() {
        if cur_len + word.len() > term {
            out += &format!("\n{: <1$}", "", dw + pw + 1);
            cur_len = dw + pw;
        }
        out += &format!("{} ", word);
        cur_len += word.len() + 1;
    }
    out += "\n";
    out
}

#[test]
fn size_text_writes_decimal() {
    assert_eq!(size_text(0), "0");
    assert_eq!(size_text(7), "7");
    assert_eq!(size_text(10), "10");
    assert_eq!(size_text(1234567890), "1234567890");
    assert_eq!(size_text(usize::MAX), usize::MAX.to_string());
}

#[test]
fn size_text_reads_back() {
    for n in [0usize, 1, 9, 10, 11, 99, 100, 4096, usize::MAX - 1, usize::MAX] {
        assert_eq!(parse_size(&size_text(n)), Some(n));
    }
}

#[test]
fn default_texts_of_the_parameters() {
    let conf = defaults();
    let shown: Vec<String> = conf.iter().map(|p| get_default_str(p, "2")).collect();
    assert_eq!(shown, vec!["-", "5", "10", "\"out.csv\"", "2"]);
}

#[test]
fn default_text_of_a_missing_value_is_a_dash() {
    let mut conf = defaults();
    conf[1].default = ArgType::size_from_str("none".to_string());
    conf[4].default = ArgType::float_from_bits(None);
    assert_eq!(get_default_str(&conf[1], "9"), "-");
    assert_eq!(get_default_str(&conf[4], "9"), "-");
    assert_eq!(get_default_str(&conf[0], "9"), "-");
}

#[test]
fn default_text_of_a_real_is_the_given_text() {
    let conf = defaults();
    assert_eq!(get_default_str(&conf[4], "2.5"), "2.5");
    assert_eq!(get_default_str(&conf[3], "2.5"), "\"out.csv\"");
}

#[test]
fn wrapped_description_that_fits_stays_on_one_line() {
    let mut out = String::from(">");
    push_wrapped(&mut out, &words("Path to input file."), 22, 80);
    assert_eq!(out, ">Path to input file. \n");
}

#[test]
fn wrapped_description_breaks_before_a_word_that_passes_the_width() {
    let mut out = String::new();
    push_wrapped(&mut out, &words("aaa bbb ccc dd"), 4, 12);
    assert_eq!(out, "aaa bbb \n     ccc dd \n");
}

#[test]
fn wrapped_description_counts_the_space_after_a_word() {
    let mut fits = String::new();
    push_wrapped(&mut fits, &words("abcd ef"), 0, 7);
    assert_eq!(fits, "abcd ef \n");
    let mut breaks = String::new();
    push_wrapped(&mut breaks, &words("abcd ef"), 0, 6);
    assert_eq!(breaks, "abcd \n ef \n");
}

#[test]
fn wrapped_description_of_no_words_is_a_line_break() {
    let mut out = String::from("x");
    push_wrapped(&mut out, &Vec::new(), 3, 10);
    assert_eq!(out, "x\n");
}

#[test]
fn word_wider_than_the_terminal_gets_a_line_of_its_own() {
    let mut out = String::new();
    push_wrapped(&mut out, &words("tiny enormousword end"), 2, 8);
    assert_eq!(out, "tiny \n   enormousword \n   end \n");
}

#[test]
fn row_pads_both_columns() {
    let line = row_str("-k", "5", &words("Number of Clusters"), 80, 11, 11).unwrap();
    assert_eq!(line, " -k         5          Number of Clusters \n");
}

#[test]
fn row_does_not_cut_what_is_wider_than_its_column() {
    let line = row_str("--long-name", "\"out.csv\"", &words("x"), 80, 4, 3).unwrap();
    assert_eq!(line, " --long-name\"out.csv\"x \n");
}

#[test]
fn row_wider_than_the_terminal_is_refused() {
    assert_eq!(row_str("-k", "5", &words("x"), 21, 11, 11), Err(HelpError::TooNarrow));
    assert!(row_str("-k", "5", &words("x"), 22, 11, 11).is_ok());
    assert_eq!(row_str("-k", "5", &words("x"), 10, usize::MAX, usize::MAX), Err(HelpError::TooNarrow));
}

#[test]
fn description_rows_match_the_formatting_of_std() {
    let conf = defaults();
    let texts = number_texts(&conf);
    for term in [22usize, 23, 30, 40, 57, 80, 200] {
        for (p, t) in conf.iter().zip(texts.iter()) {
            let default = get_default_str(p, t);
            assert_eq!(
                description_str(p, t, term, 11, 11),
                Ok(laid_out(p, &default, term, 11, 11)),
                "{} {}",
                term,
                p.cmdline_expr
            );
        }
    }
}

#[test]
fn help_rows_hold_key_default_and_words() {
    let conf = defaults();
    let rows = help_rows(&conf, &number_texts(&conf));
    assert_eq!(rows.len(), 5);
    assert_eq!(rows[3].name, "-o");
    assert_eq!(rows[3].default, "\"out.csv\"");
    assert_eq!(rows[3].words, words("Path to output file."));
    assert_eq!(rows[4].name, "-q");
    assert_eq!(rows[4].default, "2");
    assert_eq!(rows[4].words, vec!["Fuzzyfier", "constant", "for", "membership", "calculation"]);
}

#[test]
fn help_for_the_default_parameters() {
    let conf = defaults();
    let text = help_str(&conf, &number_texts(&conf), 80).unwrap();
    let mut want = String::from("USAGE: \n");
    want += "Parameters without default values are required parameters.\n";
    want += &format!(" {: <3$}{: <4$}{}\n", "Parameter", "Default", "Description", 11, 11);
    want += &format!("{:-<1$}\n", "", 80);
    want += " -i         -          Path to input file. \n";
    want += " -k         5          Number of Clusters \n";
    want += " -n         10         Upper Bound of Iteration number. \n";
    want += " -o         \"out.csv\"  Path to output file. \n";
    want += " -q         2          Fuzzyfier constant for membership calculation \n";
    assert_eq!(text, want);
}

#[test]
fn help_wraps_on_a_narrow_terminal() {
    let conf = defaults();
    let text = help_str(&conf, &number_texts(&conf), 40).unwrap();
    let lines: Vec<&str> = text.lines().collect();
    assert_eq!(lines[3], "-".repeat(40));
    assert_eq!(lines[4], " -i         -          Path to input ");
    assert_eq!(lines[5], "                       file. ");
    assert!(text.ends_with(
        " -q         2          Fuzzyfier constant \n                       for membership \n                       calculation \n"
    ));
}

#[test]
fn help_on_a_terminal_narrower_than_the_columns_is_refused() {
    let conf = defaults();
    let texts = number_texts(&conf);
    assert_eq!(help_str(&conf, &texts, 21), Err(HelpError::TooNarrow));
    assert_eq!(help_str(&conf, &texts, 0), Err(HelpError::TooNarrow));
    assert!(help_str(&conf, &texts, 22).is_ok());
}

#[test]
fn help_without_parameters_is_the_heading() {
    let text = help_text(&Vec::new(), 5).unwrap();
    assert_eq!(
        text,
        "USAGE: \nParameters without default values are required parameters.\n Parameter  DefaultDescription\n-----\n"
    );
}

#[test]
fn help_columns_follow_the_longest_entries() {
    let rows = vec![
        HelpRow { name: "--clusters".to_string(), default: "5".to_string(), words: words("How many") },
        HelpRow { name: "-q".to_string(), default: "\"a long default\"".to_string(), words: words("Soft") },
    ];
    let text = help_text(&rows, 60).unwrap();
    let lines: Vec<&str> = text.lines().collect();
    assert_eq!(lines[2], " Parameter   Default           Description");
    assert_eq!(lines[4], " --clusters  5                 How many ");
    assert_eq!(lines[5], " -q          \"a long default\"  Soft ");
    assert_eq!(help_text(&rows, 29), Err(HelpError::TooNarrow));
    assert!(help_text(&rows, 30).is_ok());
}

#[test]
fn help_rows_without_number_texts_show_an_empty_real() {
    let conf = defaults();
    let rows = help_rows(&conf, &Vec::new());
    assert_eq!(rows.len(), 5);
    assert_eq!(rows[4].default, "");
    assert_eq!(rows[3].default, "\"out.csv\"");
    assert_eq!(rows[1].default, "5");
}
