use fuzzy_cmeans::config::{
    asks_help, defaults, parse_args, parse_size, settings, ArgType, CmdlineArgument,
};
use fuzzy_cmeans::ieee::TWO;

fn args(list: &[&str]) -> Vec<String> {
    list.iter().map(|a| a.to_string()).collect()
}

fn numbers(list: &[String]) -> Vec<Option<u64>> {
    list.iter().map(|a| a.parse::<f64>().ok().map(f64::to_bits)).collect()
}

fn parse(
    list: &[&str],
) -> Result<(Vec<CmdlineArgument>, bool), (Vec<CmdlineArgument>, bool)> {
    let a = args(list);
    let n = numbers(&a);
    parse_args(&a, &n)
}

fn text(v: &ArgType) -> Option<String> {
    v.get_str().ok()
}

#[test]
fn parse_size_reads_digits() {
    assert_eq!(parse_size("0"), Some(0));
    assert_eq!(parse_size("42"), Some(42));
    assert_eq!(parse_size("007"), Some(7));
    assert_eq!(parse_size("18446744073709551615"), "18446744073709551615".parse::<usize>().ok());
}

#[test]
fn parse_size_accepts_one_plus_sign() {
    assert_eq!(parse_size("+7"), Some(7));
    assert_eq!(parse_size("+0"), Some(0));
    assert_eq!(parse_size("++7"), None);
    assert_eq!(parse_size("+"), None);
}

#[test]
fn parse_size_refuses_what_is_no_size() {
    for s in ["", "-", "-1", "-0", " 1", "1 ", "12a", "a12", "1.0", "1e3", "0x10", "١٢", "1_000"] {
        assert_eq!(parse_size(s), None, "{:?}", s);
    }
}

#[test]
fn parse_size_refuses_what_does_not_fit() {
    let max = usize::MAX.to_string();
    assert_eq!(parse_size(&max), Some(usize::MAX));
    let mut over = (usize::MAX as u128 + 1).to_string();
    assert_eq!(parse_size(&over), None);
    over.push('0');
    assert_eq!(parse_size(&over), None);
    assert_eq!(parse_size("99999999999999999999999999999999999999999999"), None);
    assert_eq!(parse_size("00000000000000000000000000000000000000000001"), Some(1));
}

#[test]
fn parse_size_agrees_with_std() {
    let samples = [
        "", "+", "-", "0", "+0", "-0", "5", "+5", "-5", "10", "0010", "4294967295", "4294967296",
        "18446744073709551615", "18446744073709551616", "184467440737095516150", "9a", "a9",
        " 9", "9 ", "+ 9", "9+", "+-9", "٣", "1\n",
    ];
    for s in samples {
        assert_eq!(parse_size(s), s.parse::<usize>().ok(), "{:?}", s);
    }
}

#[test]
fn arg_type_constructors_and_getters() {
    let f = ArgType::float_from_bits(Some(TWO));
    assert!(f.is_some());
    assert!(!f.is_none());
    assert_eq!(f.get_flt(), Ok(TWO));
    assert_eq!(f.get_size(), Err(()));
    assert!(f.get_str().is_err());

    let missing = ArgType::float_from_bits(None);
    assert!(missing.is_none());
    assert_eq!(missing.get_flt(), Err(()));

    let s = ArgType::string_from_str("data.csv".to_string());
    assert!(s.is_some());
    assert_eq!(s.get_str(), Ok("data.csv".to_string()));
    assert_eq!(s.get_flt(), Err(()));
    assert_eq!(s.get_size(), Err(()));

    let n = ArgType::size_from_str("12".to_string());
    assert_eq!(n.get_size(), Ok(12));
    assert!(n.get_str().is_err());
    let bad = ArgType::size_from_str("twelve".to_string());
    assert!(bad.is_none());
    assert_eq!(bad.get_size(), Err(()));

    assert_eq!(s.duplicate().get_str(), Ok("data.csv".to_string()));
    assert_eq!(n.duplicate().get_size(), Ok(12));
    assert_eq!(f.duplicate().get_flt(), Ok(TWO));
    assert!(bad.duplicate().is_none());
}

#[test]
fn defaults_are_the_five_parameters_in_order() {
    let conf = defaults();
    let keys: Vec<&str> = conf.iter().map(|p| p.cmdline_expr).collect();
    assert_eq!(keys, vec!["-i", "-k", "-n", "-o", "-q"]);
    let texts: Vec<&str> = conf.iter().map(|p| p.description).collect();
    assert_eq!(
        texts,
        vec![
            "Path to input file.",
            "Number of Clusters",
            "Upper Bound of Iteration number.",
            "Path to output file.",
            "Fuzzyfier constant for membership calculation",
        ]
    );
    assert!(conf[0].default.is_none());
    assert!(conf[0].value.is_none());
    assert_eq!(conf[1].default.get_size(), Ok(5));
    assert_eq!(conf[1].value.get_size(), Ok(5));
    assert_eq!(conf[2].default.get_size(), Ok(10));
    assert_eq!(conf[2].value.get_size(), Ok(10));
    assert_eq!(text(&conf[3].default), Some("out.csv".to_string()));
    assert_eq!(text(&conf[3].value), Some("out.csv".to_string()));
    assert_eq!(conf[4].default.get_flt(), Ok(2.0f64.to_bits()));
    assert_eq!(conf[4].value.get_flt(), Ok(2.0f64.to_bits()));
}

#[test]
fn asks_help_knows_both_spellings() {
    assert!(asks_help(&"-h".to_string()));
    assert!(asks_help(&"--help".to_string()));
    for other in ["", "-", "h", "-H", "--h", "-help", "--help ", "-hh"] {
        assert!(!asks_help(&other.to_string()), "{:?}", other);
    }
}

#[test]
fn missing_input_path_is_an_error() {
    let (conf, help) = parse(&["prog"]).unwrap_err();
    assert!(!help);
    assert!(conf[0].value.is_none());
    assert_eq!(conf[1].value.get_size(), Ok(5));
    assert!(settings(&conf).is_none());
    let (conf, help) = parse(&[]).unwrap_err();
    assert!(!help);
    assert_eq!(conf.len(), 5);
}

#[test]
fn input_path_alone_completes_the_defaults() {
    let (conf, help) = parse(&["prog", "-i", "points.csv"]).ok().unwrap();
    assert!(!help);
    let s = settings(&conf).unwrap();
    assert_eq!(s.input, "points.csv");
    assert_eq!(s.output, "out.csv");
    assert_eq!(s.clusters, 5);
    assert_eq!(s.iterations, 10);
    assert_eq!(s.fuzzifier, 2.0f64.to_bits());
}

#[test]
fn every_parameter_can_be_given() {
    let (conf, _) =
        parse(&["prog", "-q", "1.75", "-n", "0", "-o", "r.csv", "-k", "3", "-i", "d.csv"])
            .ok()
            .unwrap();
    let s = settings(&conf).unwrap();
    assert_eq!(s.input, "d.csv");
    assert_eq!(s.output, "r.csv");
    assert_eq!(s.clusters, 3);
    assert_eq!(s.iterations, 0);
    assert_eq!(s.fuzzifier, 1.75f64.to_bits());
    assert_eq!(conf[1].default.get_size(), Ok(5));
    assert_eq!(conf[4].default.get_flt(), Ok(TWO));
}

#[test]
fn last_occurrence_of_a_key_decides() {
    let (conf, _) = parse(&["-k", "3", "-i", "a", "-k", "8", "-i", "b"]).ok().unwrap();
    let s = settings(&conf).unwrap();
    assert_eq!(s.clusters, 8);
    assert_eq!(s.input, "b");
}

#[test]
fn key_in_last_place_is_ignored() {
    let (conf, _) = parse(&["-i", "a", "-k"]).ok().unwrap();
    assert_eq!(settings(&conf).unwrap().clusters, 5);
    let (conf, help) = parse(&["-i"]).unwrap_err();
    assert!(!help);
    assert!(conf[0].value.is_none());
}

#[test]
fn value_that_cannot_be_read_leaves_the_parameter_empty() {
    let (conf, help) = parse(&["-i", "a", "-k", "many"]).unwrap_err();
    assert!(!help);
    assert!(conf[1].value.is_none());
    assert_eq!(conf[1].default.get_size(), Ok(5));
    let (conf, help) = parse(&["-i", "a", "-q", "soft"]).unwrap_err();
    assert!(!help);
    assert!(conf[4].value.is_none());
    let (conf, _) = parse(&["-i", "a", "-k", "-4"]).unwrap_err();
    assert!(conf[1].value.is_none());
}

#[test]
fn bad_value_can_be_mended_by_a_later_one() {
    let (conf, _) = parse(&["-i", "a", "-k", "many", "-k", "4"]).ok().unwrap();
    assert_eq!(settings(&conf).unwrap().clusters, 4);
}

#[test]
fn value_is_read_as_a_key_too() {
    let (conf, _) = parse(&["-i", "-o", "x"]).ok().unwrap();
    let s = settings(&conf).unwrap();
    assert_eq!(s.input, "-o");
    assert_eq!(s.output, "x");
}

#[test]
fn help_stops_the_reading() {
    let (conf, help) = parse(&["-k", "3", "-h", "-i", "a"]).unwrap_err();
    assert!(help);
    assert_eq!(conf[1].value.get_size(), Ok(3));
    assert!(conf[0].value.is_none());
    let (conf, help) = parse(&["--help"]).unwrap_err();
    assert!(help);
    assert_eq!(conf[1].value.get_size(), Ok(5));
    let (_, help) = parse(&["-i", "a", "-k", "2", "--help"]).unwrap_err();
    assert!(help);
}

#[test]
fn help_as_a_value_is_still_help() {
    let (conf, help) = parse(&["-i", "-h"]).unwrap_err();
    assert!(help);
    assert_eq!(text(&conf[0].value), Some("-h".to_string()));
}

#[test]
fn settings_need_five_parameters_of_the_right_kinds() {
    assert!(settings(&Vec::new()).is_none());
    let mut conf = defaults();
    conf[0].value = ArgType::string_from_str("in.csv".to_string());
    assert!(settings(&conf).is_some());
    conf.swap(1, 3);
    assert!(settings(&conf).is_none());
    conf.swap(1, 3);
    conf[4].value = ArgType::size_from_str("2".to_string());
    assert!(settings(&conf).is_none());
    conf[4].value = ArgType::float_from_bits(Some(TWO));
    conf.pop();
    assert!(settings(&conf).is_none());
}

#[test]
fn arg_type_values_as_text() {
    assert_eq!(ArgType::string_from_str("a b".to_string()).to_string("9"), Ok("a b".to_string()));
    assert_eq!(ArgType::size_from_str("+0012".to_string()).to_string("9"), Ok("12".to_string()));
    assert_eq!(ArgType::float_from_bits(Some(TWO)).to_string("2"), Ok("2".to_string()));
    assert_eq!(ArgType::float_from_bits(None).to_string("2"), Err(()));
    assert_eq!(ArgType::size_from_str("x".to_string()).to_string("2"), Err(()));
    assert_eq!(defaults()[0].value.to_string("2"), Err(()));
}

#[test]
fn numbers_that_are_not_given_count_as_no_number() {
    let a = args(&["-i", "a", "-q", "1.5"]);
    let (conf, help) = parse_args(&a, &Vec::new()).unwrap_err();
    assert!(!help);
    assert!(conf[4].value.is_none());
    let (conf, _) = parse_args(&a, &vec![None, None, None, Some(1.5f64.to_bits())]).ok().unwrap();
    assert_eq!(settings(&conf).unwrap().fuzzifier, 1.5f64.to_bits());
}
