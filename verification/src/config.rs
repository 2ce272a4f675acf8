//! The configuration surface: typed parameters, their defaults, and the
//! reading of a command line into them.
//!
//! A real-valued parameter is held as the bit pattern of an IEEE-754 double.
//! Turning text into such a pattern is the caller's business; everything
//! else is decided here.

use vstd::prelude::*;
use vstd::string::StringExecFns;
use vstd::string::StrSliceExecFns;
use crate::ieee::TWO;
use crate::text::texts;

verus! {

/// Whether `c` is one of the ten ASCII digits.
pub open spec fn is_digit(c: char) -> bool {
    48 <= c as u32 <= 57
}

/// The number that a string of digits denotes in base ten.
pub open spec fn decimal(digits: Seq<char>) -> nat
    decreases digits.len(),
{
    if digits.len() == 0 {
        0
    } else {
        10 * decimal(digits.drop_last()) + (digits.last() as u32 - 48) as nat
    }
}

/// The digits of a size: the text without one leading `+`, if it has one.
pub open spec fn size_digits(s: Seq<char>) -> Seq<char> {
    if s.len() > 0 && s[0] == '+' {
        s.subrange(1, s.len() as int)
    } else {
        s
    }
}

/// The size that a text denotes: an optional `+`, then one or more digits
/// whose value fits a `usize`. Anything else denotes no size.
pub open spec fn size_of_text(s: Seq<char>) -> Option<usize> {
    let digits = size_digits(s);
    if digits.len() > 0 && (forall|i: int| 0 <= i < digits.len() ==> is_digit(#[trigger] digits[i]))
        && decimal(digits) <= usize::MAX {
        Some(decimal(digits) as usize)
    } else {
        None
    }
}

/// A number in base ten is at least the number its leading digits denote.
pub proof fn lemma_decimal_prefix(digits: Seq<char>, n: int)
    requires
        0 <= n <= digits.len(),
        forall|i: int| 0 <= i < digits.len() ==> is_digit(#[trigger] digits[i]),
    ensures
        decimal(digits.take(n)) <= decimal(digits),
    decreases digits.len() - n,
{
    if n == digits.len() {
        assert(digits.take(n) =~= digits);
    } else {
        lemma_decimal_prefix(digits, n + 1);
        assert(digits.take(n + 1).drop_last() =~= digits.take(n));
    }
}

/// Reads a size from text as `size_of_text` defines it.
pub fn parse_size(s: &str) -> (r: Option<usize>)
    ensures
        r == size_of_text(s@),
{
    let n = s.unicode_len();
    let start: usize = if n > 0 && s.get_char(0) == '+' {
        1
    } else {
        0
    };
    let ghost digits = size_digits(s@);
    if start == n {
        return None;
    }
    let mut acc: usize = 0;
    let mut i: usize = start;
    while i < n
        invariant
            start <= i <= n,
            n == s@.len(),
            digits == size_digits(s@),
            digits == s@.subrange(start as int, n as int),
            forall|l: int| 0 <= l < i - start ==> is_digit(#[trigger] digits[l]),
            acc == decimal(digits.take(i - start)),
        decreases n - i,
    {
        let c = s.get_char(i);
        let code: u32 = c as u32;
        assert(digits[i - start] == c);
        if code < 48 || code > 57 {
            return None;
        }
        let d: usize = (code - 48) as usize;
        proof {
            let next = digits.take(i - start + 1);
            assert(next.drop_last() =~= digits.take(i - start));
            if forall|l: int| 0 <= l < digits.len() ==> is_digit(#[trigger] digits[l]) {
                lemma_decimal_prefix(digits, i - start + 1);
            }
        }
        let tens = match acc.checked_mul(10) {
            Some(t) => t,
            None => {
                return None;
            },
        };
        acc = match tens.checked_add(d) {
            Some(t) => t,
            None => {
                return None;
            },
        };
        i = i + 1;
    }
    assert(digits.take(n - start) =~= digits);
    Some(acc)
}

/// The decimal digits of a number, without leading zeros.
pub open spec fn digits_of(n: nat) -> Seq<char>
    decreases n,
{
    if n < 10 {
        seq![(n + 48) as u8 as char]
    } else {
        digits_of(n / 10).push((n % 10 + 48) as u8 as char)
    }
}

/// The decimal text of a count.
pub fn size_text(n: usize) -> (r: String)
    ensures
        r@ == digits_of(n as nat),
    decreases n,
{
    let mut out = if n < 10 {
        String::new()
    } else {
        size_text(n / 10)
    };
    let d = n % 10;
    proof {
        reveal_strlit("0");
        reveal_strlit("1");
        reveal_strlit("2");
        reveal_strlit("3");
        reveal_strlit("4");
        reveal_strlit("5");
        reveal_strlit("6");
        reveal_strlit("7");
        reveal_strlit("8");
        reveal_strlit("9");
    }
    let piece = if d == 0 {
        "0"
    } else if d == 1 {
        "1"
    } else if d == 2 {
        "2"
    } else if d == 3 {
        "3"
    } else if d == 4 {
        "4"
    } else if d == 5 {
        "5"
    } else if d == 6 {
        "6"
    } else if d == 7 {
        "7"
    } else if d == 8 {
        "8"
    } else {
        "9"
    };
    out.append(piece);
    out
}

/// Reading the decimal text of a count gives the count back.
pub proof fn lemma_size_text_round_trip(n: usize)
    ensures
        size_of_text(digits_of(n as nat)) == Some(n),
{
    lemma_digits(n as nat);
    let d = digits_of(n as nat);
}

/// The decimal text of a number is not empty, made of digits only, and
/// denotes that number.
pub proof fn lemma_digits(n: nat)
    ensures
        digits_of(n).len() > 0,
        forall|i: int| 0 <= i < digits_of(n).len() ==> is_digit(#[trigger] digits_of(n)[i]),
        decimal(digits_of(n)) == n,
    decreases n,
{
    if n < 10 {
        let d = digits_of(n);
        assert(decimal(d.drop_last()) == 0);
    } else {
        lemma_digits(n / 10);
        let d = digits_of(n);
        assert(d.drop_last() =~= digits_of(n / 10));
    }
}

/// A parameter value of one of three kinds, present or absent.
#[derive(Debug)]
pub enum ArgType {
    /// A real number, as the bit pattern of a double.
    FloatingNumber(Option<u64>),
    /// A text.
    StringType(Option<String>),
    /// A count.
    SizeType(Option<usize>),
}

/// What an `ArgType` holds, with text in place of strings.
pub enum ArgView {
    FloatingNumber(Option<u64>),
    StringType(Option<Seq<char>>),
    SizeType(Option<usize>),
}

impl ArgView {
    /// Whether a value is present.
    pub open spec fn present(self) -> bool {
        match self {
            ArgView::FloatingNumber(v) => v is Some,
            ArgView::StringType(v) => v is Some,
            ArgView::SizeType(v) => v is Some,
        }
    }

    /// The value of the same kind as `self` that is read from an argument
    /// with text `text`, which parsed as a real number gives `number`.
    pub open spec fn read(self, text: Seq<char>, number: Option<u64>) -> ArgView {
        match self {
            ArgView::FloatingNumber(_) => ArgView::FloatingNumber(number),
            ArgView::StringType(_) => ArgView::StringType(Some(text)),
            ArgView::SizeType(_) => ArgView::SizeType(size_of_text(text)),
        }
    }
}

impl View for ArgType {
    type V = ArgView;

    open spec fn view(&self) -> ArgView {
        match self {
            ArgType::FloatingNumber(v) => ArgView::FloatingNumber(*v),
            ArgType::StringType(Some(s)) => ArgView::StringType(Some(s@)),
            ArgType::StringType(None) => ArgView::StringType(None),
            ArgType::SizeType(v) => ArgView::SizeType(*v),
        }
    }
}

impl ArgType {
    /// A real-valued parameter from the outcome of parsing its text: the bit
    /// pattern of the number, or `None` where the text is no number.
    pub fn float_from_bits(parsed: Option<u64>) -> (r: ArgType)
        ensures
            r@ == ArgView::FloatingNumber(parsed),
    {
        ArgType::FloatingNumber(parsed)
    }

    /// A text parameter: any text is accepted.
    pub fn string_from_str(input: String) -> (r: ArgType)
        ensures
            r@ == ArgView::StringType(Some(input@)),
    {
        ArgType::StringType(Some(input))
    }

    /// A count parameter: present where the text denotes a size.
    pub fn size_from_str(input: String) -> (r: ArgType)
        ensures
            r@ == ArgView::SizeType(size_of_text(input@)),
    {
        ArgType::SizeType(parse_size(input.as_str()))
    }

    /// Whether a value is present.
    pub fn is_some(&self) -> (b: bool)
        ensures
            b == self@.present(),
    {
        match self {
            ArgType::FloatingNumber(val) => val.is_some(),
            ArgType::StringType(val) => val.is_some(),
            ArgType::SizeType(val) => val.is_some(),
        }
    }

    /// Whether the value is absent.
    pub fn is_none(&self) -> (b: bool)
        ensures
            b == !self@.present(),
    {
        !self.is_some()
    }

    /// The real number, where this is a real-valued parameter that is
    /// present.
    pub fn get_flt(&self) -> (r: Result<u64, ()>)
        ensures
            match self@ {
                ArgView::FloatingNumber(Some(v)) => r == Ok::<u64, ()>(v),
                _ => r is Err,
            },
    {
        match self {
            ArgType::FloatingNumber(Some(val)) => Ok(*val),
            _ => Err(()),
        }
    }

    /// The text, where this is a text parameter that is present.
    pub fn get_str(&self) -> (r: Result<String, ()>)
        ensures
            match self@ {
                ArgView::StringType(Some(t)) => r matches Ok(s) && s@ == t,
                _ => r is Err,
            },
    {
        match self {
            ArgType::StringType(Some(val)) => Ok(val.clone()),
            _ => Err(()),
        }
    }

    /// The count, where this is a count parameter that is present.
    pub fn get_size(&self) -> (r: Result<usize, ()>)
        ensures
            match self@ {
                ArgView::SizeType(Some(v)) => r == Ok::<usize, ()>(v),
                _ => r is Err,
            },
    {
        match self {
            ArgType::SizeType(Some(val)) => Ok(*val),
            _ => Err(()),
        }
    }

    /// The value as text: a text as it is, a count in decimal, and a real
    /// number as the given text `number`, which the caller makes and which
    /// is not looked at otherwise. An absent value has no text.
    pub fn to_string(&self, number: &str) -> (r: Result<String, ()>)
        ensures
            match self@ {
                ArgView::FloatingNumber(Some(_)) => r matches Ok(s) && s@ == number@,
                ArgView::StringType(Some(t)) => r matches Ok(s) && s@ == t,
                ArgView::SizeType(Some(n)) => r matches Ok(s) && s@ == digits_of(n as nat),
                _ => r is Err,
            },
    {
        match self {
            ArgType::FloatingNumber(Some(_)) => Ok(String::from_str(number)),
            ArgType::StringType(Some(val)) => Ok(val.clone()),
            ArgType::SizeType(Some(val)) => Ok(size_text(*val)),
            _ => Err(()),
        }
    }

    /// A copy with the same contents.
    pub fn duplicate(&self) -> (r: ArgType)
        ensures
            r@ == self@,
    {
        match self {
            ArgType::FloatingNumber(val) => ArgType::FloatingNumber(*val),
            ArgType::StringType(Some(val)) => ArgType::StringType(Some(val.clone())),
            ArgType::StringType(None) => ArgType::StringType(None),
            ArgType::SizeType(val) => ArgType::SizeType(*val),
        }
    }
}

/// One parameter of the command line: how it is written, what it means, its
/// default and its current value.
#[derive(Debug)]
pub struct CmdlineArgument {
    pub description: &'static str,
    pub cmdline_expr: &'static str,
    pub default: ArgType,
    pub value: ArgType,
}

/// What a `CmdlineArgument` holds, with text in place of strings.
pub struct ParamView {
    pub description: Seq<char>,
    pub cmdline_expr: Seq<char>,
    pub default: ArgView,
    pub value: ArgView,
}

impl View for CmdlineArgument {
    type V = ParamView;

    open spec fn view(&self) -> ParamView {
        ParamView {
            description: self.description@,
            cmdline_expr: self.cmdline_expr@,
            default: self.default@,
            value: self.value@,
        }
    }
}

/// A parameter that stands at its default.
pub open spec fn at_default(cmdline_expr: Seq<char>, description: Seq<char>, default: ArgView) -> ParamView {
    ParamView { description, cmdline_expr, default, value: default }
}

/// The five parameters, ordered by how they are written, each at its
/// default: the input path has none, the output path is `out.csv`, there
/// are 5 clusters, 10 iterations, and the fuzzifier is 2.
pub open spec fn default_params() -> Seq<ParamView> {
    seq![
        at_default("-i"@, "Path to input file."@, ArgView::StringType(None)),
        at_default("-k"@, "Number of Clusters"@, ArgView::SizeType(Some(5))),
        at_default("-n"@, "Upper Bound of Iteration number."@, ArgView::SizeType(Some(10))),
        at_default("-o"@, "Path to output file."@, ArgView::StringType(Some("out.csv"@))),
        at_default(
            "-q"@,
            "Fuzzyfier constant for membership calculation"@,
            ArgView::FloatingNumber(Some(TWO)),
        ),
    ]
}

/// The views of a vector of parameters.
pub open spec fn params_of(conf: Seq<CmdlineArgument>) -> Seq<ParamView> {
    Seq::new(conf.len(), |i: int| conf[i]@)
}

/// The five parameters at their defaults.
pub fn defaults() -> (conf: Vec<CmdlineArgument>)
    ensures
        params_of(conf@) == default_params(),
{
    let mut conf: Vec<CmdlineArgument> = Vec::new();
    conf.push(
        CmdlineArgument {
            description: "Path to input file.",
            cmdline_expr: "-i",
            default: ArgType::StringType(None),
            value: ArgType::StringType(None),
        },
    );
    conf.push(
        CmdlineArgument {
            description: "Number of Clusters",
            cmdline_expr: "-k",
            default: ArgType::SizeType(Some(5)),
            value: ArgType::SizeType(Some(5)),
        },
    );
    conf.push(
        CmdlineArgument {
            description: "Upper Bound of Iteration number.",
            cmdline_expr: "-n",
            default: ArgType::SizeType(Some(10)),
            value: ArgType::SizeType(Some(10)),
        },
    );
    conf.push(
        CmdlineArgument {
            description: "Path to output file.",
            cmdline_expr: "-o",
            default: ArgType::StringType(Some(String::from_str("out.csv"))),
            value: ArgType::StringType(Some(String::from_str("out.csv"))),
        },
    );
    conf.push(
        CmdlineArgument {
            description: "Fuzzyfier constant for membership calculation",
            cmdline_expr: "-q",
            default: ArgType::FloatingNumber(Some(TWO)),
            value: ArgType::FloatingNumber(Some(TWO)),
        },
    );
    conf
}

/// Whether an argument asks for the help text.
pub open spec fn is_help(arg: Seq<char>) -> bool {
    arg == "-h"@ || arg == "--help"@
}

/// The number of arguments that are read, counting from position `from`:
/// reading stops in front of the first request for help.
pub open spec fn stop_from(args: Seq<Seq<char>>, from: int) -> int
    decreases args.len() - from,
{
    if from >= args.len() {
        args.len() as int
    } else if is_help(args[from]) {
        from
    } else {
        stop_from(args, from + 1)
    }
}

/// The outcome of parsing argument `i` as a real number; an argument for
/// which the caller gave none counts as no number.
pub open spec fn number_at(numbers: Seq<Option<u64>>, i: int) -> Option<u64> {
    if 0 <= i < numbers.len() {
        numbers[i]
    } else {
        None
    }
}

/// The value of the parameter written `key` once the first `limit`
/// arguments are read. The parameter is set wherever its key is followed by
/// another argument, which is then read as a value of the parameter's kind;
/// the last such place decides, and without one the value stays `start`.
pub open spec fn value_after(
    args: Seq<Seq<char>>,
    numbers: Seq<Option<u64>>,
    limit: int,
    key: Seq<char>,
    start: ArgView,
) -> ArgView
    decreases limit,
{
    if limit <= 0 {
        start
    } else if limit < args.len() && args[limit - 1] == key {
        start.read(args[limit], number_at(numbers, limit))
    } else {
        value_after(args, numbers, limit - 1, key, start)
    }
}

/// The parameter `p` once the first `limit` arguments are read.
pub open spec fn param_after(
    p: ParamView,
    args: Seq<Seq<char>>,
    numbers: Seq<Option<u64>>,
    limit: int,
) -> ParamView {
    ParamView { value: value_after(args, numbers, limit, p.cmdline_expr, p.default), ..p }
}

/// The parameters once the first `limit` arguments are read.
pub open spec fn params_after(args: Seq<Seq<char>>, numbers: Seq<Option<u64>>, limit: int) -> Seq<
    ParamView,
> {
    Seq::new(default_params().len(), |x: int| param_after(default_params()[x], args, numbers, limit))
}

/// Whether every parameter has a value.
pub open spec fn complete(params: Seq<ParamView>) -> bool {
    forall|x: int| 0 <= x < params.len() ==> (#[trigger] params[x]).value.present()
}

/// Whether an argument asks for the help text.
pub fn asks_help(arg: &String) -> (b: bool)
    ensures
        b == is_help(arg@),
{
    *arg == String::from_str("-h") || *arg == String::from_str("--help")
}

/// Reads the command line into the five parameters.
///
/// `numbers[i]` is the outcome of parsing `args[i]` as a real number: the
/// bit pattern of the double, or `None`; where `numbers` is shorter than
/// `args` the rest counts as `None`. Arguments are read from the left.
/// At the first `-h` or `--help` reading stops and the result is
/// `Err((params, true))`, the parameters as they stand. Otherwise every
/// parameter takes the value behind the last place where its key is followed
/// by an argument, read by the parameter's kind, or keeps its default. A
/// value that cannot be read leaves the parameter without value. With every
/// parameter present the result is `Ok((params, false))`, else
/// `Err((params, false))`.
pub fn parse_args(args: &Vec<String>, numbers: &Vec<Option<u64>>) -> (r: Result<
    (Vec<CmdlineArgument>, bool),
    (Vec<CmdlineArgument>, bool),
>)
    ensures
        ({
            let words = texts(args@);
            let limit = stop_from(words, 0);
            let params = params_after(words, numbers@, limit);
            match r {
                Ok((conf, help)) => params_of(conf@) == params && !help && limit == args.len()
                    && complete(params),
                Err((conf, help)) => params_of(conf@) == params && (help <==> limit < args.len())
                    && (!help ==> !complete(params)),
            }
        }),
{
    let mut conf = defaults();
    let n = args.len();
    let ghost words = texts(args@);
    assert(params_of(conf@) =~= params_after(words, numbers@, 0));
    let mut i: usize = 0;
    while i < n
        invariant
            i <= n,
            n == args.len(),
            words == texts(args@),
            stop_from(words, 0) == stop_from(words, i as int),
            conf.len() == 5,
            params_of(conf@) == params_after(words, numbers@, i as int),
        decreases n - i,
    {
        if asks_help(&args[i]) {
            return Err((conf, true));
        }
        if i + 1 < n {
            let number = if i + 1 < numbers.len() {
                numbers[i + 1]
            } else {
                None
            };
            let mut x: usize = 0;
            while x < 5
                invariant
                    x <= 5,
                    i + 1 < n,
                    n == args.len(),
                    words == texts(args@),
                    number == number_at(numbers@, i + 1),
                    conf.len() == 5,
                    forall|y: int|
                        0 <= y < x ==> (#[trigger] params_of(conf@)[y]) == param_after(
                            default_params()[y],
                            words,
                            numbers@,
                            i + 1,
                        ),
                    forall|y: int|
                        x <= y < 5 ==> (#[trigger] params_of(conf@)[y]) == param_after(
                            default_params()[y],
                            words,
                            numbers@,
                            i as int,
                        ),
                decreases 5 - x,
            {
                let ghost before = params_of(conf@);
                assert(before[x as int] == conf[x as int]@);
                if String::from_str(conf[x].cmdline_expr) == args[i] {
                    let next = args[i + 1].clone();
                    let value = match conf[x].default {
                        ArgType::FloatingNumber(_) => ArgType::float_from_bits(number),
                        ArgType::StringType(_) => ArgType::string_from_str(next),
                        ArgType::SizeType(_) => ArgType::size_from_str(next),
                    };
                    let entry = CmdlineArgument {
                        description: conf[x].description,
                        cmdline_expr: conf[x].cmdline_expr,
                        default: conf[x].default.duplicate(),
                        value,
                    };
                    conf.set(x, entry);
                }
                proof {
                    let after = params_of(conf@);
                    assert forall|y: int| 0 <= y < 5 && y != x implies #[trigger] after[y]
                        == before[y] by {}
                }
                x = x + 1;
            }
        }
        i = i + 1;
    }
    let mut all = true;
    let mut x: usize = 0;
    while x < 5
        invariant
            x <= 5,
            conf.len() == 5,
            all <==> forall|y: int| 0 <= y < x ==> (#[trigger] params_of(conf@)[y]).value.present(),
        decreases 5 - x,
    {
        assert(params_of(conf@)[x as int] == conf[x as int]@);
        if conf[x].value.is_none() {
            all = false;
        }
        x = x + 1;
    }
    if all {
        Ok((conf, false))
    } else {
        Err((conf, false))
    }
}

/// The values of a complete configuration.
#[derive(Debug)]
pub struct Settings {
    /// The path of the data file.
    pub input: String,
    /// The path of the result file.
    pub output: String,
    /// The number of clusters.
    pub clusters: usize,
    /// The number of refinements.
    pub iterations: usize,
    /// The fuzzifier, as the bit pattern of a double.
    pub fuzzifier: u64,
}

/// Whether `params` are the five parameters in their order, each with a
/// value of its own kind.
pub open spec fn readable(params: Seq<ParamView>) -> bool {
    &&& params.len() == 5
    &&& params[0].value matches ArgView::StringType(Some(_))
    &&& params[1].value matches ArgView::SizeType(Some(_))
    &&& params[2].value matches ArgView::SizeType(Some(_))
    &&& params[3].value matches ArgView::StringType(Some(_))
    &&& params[4].value matches ArgView::FloatingNumber(Some(_))
}

/// Whether `s` holds exactly the values of `params`: input path, clusters,
/// iterations, output path and fuzzifier, in the order of the parameters.
pub open spec fn is_settings(params: Seq<ParamView>, s: Settings) -> bool {
    &&& params.len() == 5
    &&& params[0].value == ArgView::StringType(Some(s.input@))
    &&& params[1].value == ArgView::SizeType(Some(s.clusters))
    &&& params[2].value == ArgView::SizeType(Some(s.iterations))
    &&& params[3].value == ArgView::StringType(Some(s.output@))
    &&& params[4].value == ArgView::FloatingNumber(Some(s.fuzzifier))
}

/// The values of the five parameters, or `None` where they are not
/// `readable`.
pub fn settings(conf: &Vec<CmdlineArgument>) -> (r: Option<Settings>)
    ensures
        r is Some <==> readable(params_of(conf@)),
        r matches Some(s) ==> is_settings(params_of(conf@), s),
{
    if conf.len() != 5 {
        return None;
    }
    proof {
        let ps = params_of(conf@);
    }
    let input = match conf[0].value.get_str() {
        Ok(v) => v,
        Err(_) => {
            return None;
        },
    };
    let clusters = match conf[1].value.get_size() {
        Ok(v) => v,
        Err(_) => {
            return None;
        },
    };
    let iterations = match conf[2].value.get_size() {
        Ok(v) => v,
        Err(_) => {
            return None;
        },
    };
    let output = match conf[3].value.get_str() {
        Ok(v) => v,
        Err(_) => {
            return None;
        },
    };
    let fuzzifier = match conf[4].value.get_flt() {
        Ok(v) => v,
        Err(_) => {
            return None;
        },
    };
    Some(Settings { input, output, clusters, iterations, fuzzifier })
}

/// Once every argument is read and every parameter has a value, the
/// parameters are readable as settings: each kept the kind of its default.
pub proof fn lemma_complete_is_readable(args: Seq<Seq<char>>, numbers: Seq<Option<u64>>, limit: int)
    requires
        complete(params_after(args, numbers, limit)),
    ensures
        readable(params_after(args, numbers, limit)),
{
    let ps = params_after(args, numbers, limit);
    let ds = default_params();
    assert forall|x: int| 0 <= x < 5 implies same_kind(
        (#[trigger] ps[x]).value,
        ds[x].default,
    ) by {
        lemma_value_keeps_kind(args, numbers, limit, ds[x].cmdline_expr, ds[x].default);
    }
}

/// Whether two values are of the same kind.
pub open spec fn same_kind(a: ArgView, b: ArgView) -> bool {
    match (a, b) {
        (ArgView::FloatingNumber(_), ArgView::FloatingNumber(_)) => true,
        (ArgView::StringType(_), ArgView::StringType(_)) => true,
        (ArgView::SizeType(_), ArgView::SizeType(_)) => true,
        _ => false,
    }
}

/// Reading arguments never changes the kind of a parameter.
pub proof fn lemma_value_keeps_kind(
    args: Seq<Seq<char>>,
    numbers: Seq<Option<u64>>,
    limit: int,
    key: Seq<char>,
    start: ArgView,
)
    ensures
        same_kind(value_after(args, numbers, limit, key, start), start),
    decreases limit,
{
    if limit > 0 && !(limit < args.len() && args[limit - 1] == key) {
        lemma_value_keeps_kind(args, numbers, limit - 1, key, start);
    }
}

} // verus!
