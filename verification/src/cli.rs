//! The command line: its arguments and where each output goes.

use vstd::prelude::*;
use crate::encode::Encoder;
use crate::text::{decimal, digit_char, nat_digits};

verus! {

// ---------------------------------------------------------------------------
// Parsed arguments and their errors
// ---------------------------------------------------------------------------

/// The settings the command line gives.
#[derive(Debug)]
pub struct CliArgs {
    pub inputs: Vec<String>,
    /// The text of the last `--max-mb` value (checked to read as a number);
    /// `None` means the default ceiling.
    pub max_mb: Option<String>,
    pub encoder: Encoder,
    pub passes: u32,
    pub suffix: String,
    pub outdir: Option<String>,
    pub keep_fps: bool,
    pub no_audio: bool,
}

/// What the command line asks for.
#[derive(Debug)]
pub enum Command {
    /// Compress the inputs with these settings.
    Run(CliArgs),
    /// Show the usage text and stop.
    Help,
}

/// Why a command line is refused.
#[derive(Debug)]
pub enum ArgError {
    /// The flag (named as in the usage text) has no value after it.
    MissingValue(String),
    /// The `--max-mb` value (given) is not a number.
    BadMaxMb(String),
    /// The `--encoder` value names no encoder.
    UnknownEncoder(String),
    /// The `--passes` value (given) is not a non-negative integer that fits
    /// in 32 bits.
    BadPasses(String),
    /// An argument starts with `-` (and is not `-` alone) but is no option.
    UnknownOption(String),
    /// No input file was given.
    NoInputs,
    /// `--passes 0`.
    ZeroPasses,
}

pub struct ArgsModel {
    pub inputs: Seq<Seq<char>>,
    pub max_mb: Option<Seq<char>>,
    pub encoder: Encoder,
    pub passes: u32,
    pub suffix: Seq<char>,
    pub outdir: Option<Seq<char>>,
    pub keep_fps: bool,
    pub no_audio: bool,
}

pub enum ArgErrorModel {
    MissingValue(Seq<char>),
    BadMaxMb(Seq<char>),
    UnknownEncoder(Seq<char>),
    BadPasses(Seq<char>),
    UnknownOption(Seq<char>),
    NoInputs,
    ZeroPasses,
}

pub enum ParseModel {
    Run(ArgsModel),
    Help,
    Fail(ArgErrorModel),
}

pub open spec fn opt_view(o: Option<String>) -> Option<Seq<char>> {
    match o {
        Some(s) => Some(s@),
        None => None,
    }
}

pub open spec fn strings_view(v: Seq<String>) -> Seq<Seq<char>> {
    v.map_values(|s: String| s@)
}

impl CliArgs {
    pub open spec fn model(&self) -> ArgsModel {
        ArgsModel {
            inputs: strings_view(self.inputs@),
            max_mb: opt_view(self.max_mb),
            encoder: self.encoder,
            passes: self.passes,
            suffix: self.suffix@,
            outdir: opt_view(self.outdir),
            keep_fps: self.keep_fps,
            no_audio: self.no_audio,
        }
    }
}

impl ArgError {
    pub open spec fn model(&self) -> ArgErrorModel {
        match self {
            ArgError::MissingValue(f) => ArgErrorModel::MissingValue(f@),
            ArgError::BadMaxMb(v) => ArgErrorModel::BadMaxMb(v@),
            ArgError::UnknownEncoder(v) => ArgErrorModel::UnknownEncoder(v@),
            ArgError::BadPasses(v) => ArgErrorModel::BadPasses(v@),
            ArgError::UnknownOption(o) => ArgErrorModel::UnknownOption(o@),
            ArgError::NoInputs => ArgErrorModel::NoInputs,
            ArgError::ZeroPasses => ArgErrorModel::ZeroPasses,
        }
    }
}

pub open spec fn spec_message(e: ArgErrorModel) -> Seq<char> {
    match e {
        ArgErrorModel::MissingValue(flag) => flag + " needs a value"@,
        ArgErrorModel::BadMaxMb(_) => "--max-mb must be a number"@,
        ArgErrorModel::UnknownEncoder(v) => "unknown --encoder '"@ + v + "' (auto|nvenc|x264|openh264)"@,
        ArgErrorModel::BadPasses(_) => "--passes must be an integer"@,
        ArgErrorModel::UnknownOption(o) => "unknown option '"@ + o + "' (try --help)"@,
        ArgErrorModel::NoInputs => "no input files given"@,
        ArgErrorModel::ZeroPasses => "--passes must be >= 1"@,
    }
}

impl ArgError {
    /// The text the command line reports for this error.
    pub fn message(&self) -> (r: String)
        ensures
            r@ == spec_message(self.model()),
    {
        match self {
            ArgError::MissingValue(flag) => {
                let mut m = flag.clone();
                m.append(" needs a value");
                m
            },
            ArgError::BadMaxMb(_) => String::from_str("--max-mb must be a number"),
            ArgError::UnknownEncoder(v) => {
                let mut m = String::from_str("unknown --encoder '");
                m.append(v.as_str());
                m.append("' (auto|nvenc|x264|openh264)");
                m
            },
            ArgError::BadPasses(_) => String::from_str("--passes must be an integer"),
            ArgError::UnknownOption(o) => {
                let mut m = String::from_str("unknown option '");
                m.append(o.as_str());
                m.append("' (try --help)");
                m
            },
            ArgError::NoInputs => String::from_str("no input files given"),
            ArgError::ZeroPasses => String::from_str("--passes must be >= 1"),
        }
    }
}

pub open spec fn result_model(r: Result<Command, ArgError>) -> ParseModel {
    match r {
        Ok(Command::Run(a)) => ParseModel::Run(a.model()),
        Ok(Command::Help) => ParseModel::Help,
        Err(e) => ParseModel::Fail(e.model()),
    }
}

// ---------------------------------------------------------------------------
// Specification of the command line
// ---------------------------------------------------------------------------

pub open spec fn default_args() -> ArgsModel {
    ArgsModel {
        inputs: Seq::empty(),
        max_mb: None,
        encoder: Encoder::Auto,
        passes: 3,
        suffix: "_discord"@,
        outdir: None,
        keep_fps: false,
        no_audio: false,
    }
}

pub open spec fn encoder_named(s: Seq<char>) -> Option<Encoder> {
    if s == "auto"@ {
        Some(Encoder::Auto)
    } else if s == "nvenc"@ {
        Some(Encoder::Nvenc)
    } else if s == "x264"@ {
        Some(Encoder::X264)
    } else if s == "openh264"@ {
        Some(Encoder::OpenH264)
    } else {
        None
    }
}

pub open spec fn is_digit(c: char) -> bool {
    '0' <= c && c <= '9'
}

pub open spec fn all_digits(s: Seq<char>) -> bool {
    forall|i: int| 0 <= i < s.len() ==> is_digit(#[trigger] s[i])
}

/// The value of a string of decimal digits.
pub open spec fn digits_value(s: Seq<char>) -> nat
    decreases s.len(),
{
    if s.len() == 0 {
        0
    } else {
        digits_value(s.drop_last()) * 10 + ((s.last() as int) - ('0' as int)) as nat
    }
}

/// `u32::from_str`: an optional `+`, then one or more ASCII digits whose value
/// fits in 32 bits.
pub open spec fn spec_parse_u32(s: Seq<char>) -> Option<u32> {
    let d = if s.len() > 0 && s[0] == '+' { s.drop_first() } else { s };
    if d.len() > 0 && all_digits(d) && digits_value(d) <= u32::MAX {
        Some(digits_value(d) as u32)
    } else {
        None
    }
}

/// `-` followed by something: an option (a lone `-` is an input).
pub open spec fn looks_like_option(a: Seq<char>) -> bool {
    a.len() > 0 && a[0] == '-' && a != "-"@
}

pub open spec fn finish(st: ArgsModel) -> ParseModel {
    if st.inputs.len() == 0 {
        ParseModel::Fail(ArgErrorModel::NoInputs)
    } else if st.passes == 0 {
        ParseModel::Fail(ArgErrorModel::ZeroPasses)
    } else {
        ParseModel::Run(st)
    }
}

/// The meaning of the arguments from position `i` on, given the settings so
/// far. `number_ok[j]` tells whether `argv[j]` reads as a number. Arguments
/// are taken left to right; the first problem met is the one reported; a
/// later setting overrides an earlier one; help stops everything.
pub open spec fn parse_from(argv: Seq<Seq<char>>, number_ok: Seq<bool>, i: int, st: ArgsModel) -> ParseModel
    decreases argv.len() - i,
{
    if i < 0 || i >= argv.len() {
        finish(st)
    } else {
        let a = argv[i];
        let has_value = i + 1 < argv.len();
        if a == "-h"@ || a == "--help"@ {
            ParseModel::Help
        } else if a == "--max-mb"@ {
            if !has_value {
                ParseModel::Fail(ArgErrorModel::MissingValue("--max-mb"@))
            } else if !number_ok[i + 1] {
                ParseModel::Fail(ArgErrorModel::BadMaxMb(argv[i + 1]))
            } else {
                parse_from(argv, number_ok, i + 2, ArgsModel { max_mb: Some(argv[i + 1]), ..st })
            }
        } else if a == "--encoder"@ {
            if !has_value {
                ParseModel::Fail(ArgErrorModel::MissingValue("--encoder"@))
            } else {
                match encoder_named(argv[i + 1]) {
                    Some(e) => parse_from(argv, number_ok, i + 2, ArgsModel { encoder: e, ..st }),
                    None => ParseModel::Fail(ArgErrorModel::UnknownEncoder(argv[i + 1])),
                }
            }
        } else if a == "--passes"@ {
            if !has_value {
                ParseModel::Fail(ArgErrorModel::MissingValue("--passes"@))
            } else {
                match spec_parse_u32(argv[i + 1]) {
                    Some(n) => parse_from(argv, number_ok, i + 2, ArgsModel { passes: n, ..st }),
                    None => ParseModel::Fail(ArgErrorModel::BadPasses(argv[i + 1])),
                }
            }
        } else if a == "--suffix"@ {
            if !has_value {
                ParseModel::Fail(ArgErrorModel::MissingValue("--suffix"@))
            } else {
                parse_from(argv, number_ok, i + 2, ArgsModel { suffix: argv[i + 1], ..st })
            }
        } else if a == "-o"@ || a == "--outdir"@ {
            if !has_value {
                ParseModel::Fail(ArgErrorModel::MissingValue("--outdir"@))
            } else {
                parse_from(argv, number_ok, i + 2, ArgsModel { outdir: Some(argv[i + 1]), ..st })
            }
        } else if a == "--keep-fps"@ {
            parse_from(argv, number_ok, i + 1, ArgsModel { keep_fps: true, ..st })
        } else if a == "--no-audio"@ {
            parse_from(argv, number_ok, i + 1, ArgsModel { no_audio: true, ..st })
        } else if looks_like_option(a) {
            ParseModel::Fail(ArgErrorModel::UnknownOption(a))
        } else {
            parse_from(argv, number_ok, i + 1, ArgsModel { inputs: st.inputs.push(a), ..st })
        }
    }
}

/// Settings that parse accepts always name at least one input and at least
/// one pass.
pub proof fn lemma_run_has_inputs_and_passes(argv: Seq<Seq<char>>, number_ok: Seq<bool>, i: int, st: ArgsModel)
    ensures
        parse_from(argv, number_ok, i, st) matches ParseModel::Run(m) ==> m.inputs.len() > 0 && m.passes >= 1,
    decreases argv.len() - i,
{
    if 0 <= i < argv.len() {
        let a = argv[i];
        if a == "--max-mb"@ && i + 1 < argv.len() && number_ok[i + 1] {
            lemma_run_has_inputs_and_passes(argv, number_ok, i + 2, ArgsModel { max_mb: Some(argv[i + 1]), ..st });
        }
        if a == "--encoder"@ && i + 1 < argv.len() && encoder_named(argv[i + 1]) is Some {
            lemma_run_has_inputs_and_passes(argv, number_ok, i + 2, ArgsModel { encoder: encoder_named(argv[i + 1])->0, ..st });
        }
        if a == "--passes"@ && i + 1 < argv.len() && spec_parse_u32(argv[i + 1]) is Some {
            lemma_run_has_inputs_and_passes(argv, number_ok, i + 2, ArgsModel { passes: spec_parse_u32(argv[i + 1])->0, ..st });
        }
        if a == "--suffix"@ && i + 1 < argv.len() {
            lemma_run_has_inputs_and_passes(argv, number_ok, i + 2, ArgsModel { suffix: argv[i + 1], ..st });
        }
        if (a == "-o"@ || a == "--outdir"@) && i + 1 < argv.len() {
            lemma_run_has_inputs_and_passes(argv, number_ok, i + 2, ArgsModel { outdir: Some(argv[i + 1]), ..st });
        }
        lemma_run_has_inputs_and_passes(argv, number_ok, i + 1, ArgsModel { keep_fps: true, ..st });
        lemma_run_has_inputs_and_passes(argv, number_ok, i + 1, ArgsModel { no_audio: true, ..st });
        lemma_run_has_inputs_and_passes(argv, number_ok, i + 1, ArgsModel { inputs: st.inputs.push(a), ..st });
    }
}

/// No argument from position `from` on equals `flag`.
pub open spec fn absent(argv: Seq<Seq<char>>, from: int, flag: Seq<char>) -> bool {
    forall|j: int| from <= j < argv.len() ==> #[trigger] argv[j] != flag
}

/// Each option sets only its own setting: a setting whose option does not
/// appear keeps the value it had, and the two switches, once on, stay on.
pub proof fn lemma_options_set_only_their_own(argv: Seq<Seq<char>>, number_ok: Seq<bool>, i: int, st: ArgsModel)
    requires
        0 <= i,
    ensures
        parse_from(argv, number_ok, i, st) matches ParseModel::Run(m) ==> {
            &&& (absent(argv, i, "--no-audio"@) ==> m.no_audio == st.no_audio)
            &&& (absent(argv, i, "--keep-fps"@) ==> m.keep_fps == st.keep_fps)
            &&& (absent(argv, i, "--passes"@) ==> m.passes == st.passes)
            &&& (absent(argv, i, "--encoder"@) ==> m.encoder == st.encoder)
            &&& (absent(argv, i, "--suffix"@) ==> m.suffix == st.suffix)
            &&& (absent(argv, i, "--max-mb"@) ==> m.max_mb == st.max_mb)
            &&& (absent(argv, i, "-o"@) && absent(argv, i, "--outdir"@) ==> m.outdir == st.outdir)
            &&& (st.keep_fps ==> m.keep_fps)
            &&& (st.no_audio ==> m.no_audio)
        },
    decreases argv.len() - i,
{
    if i < argv.len() {
        let a = argv[i];
        if i + 1 < argv.len() {
            lemma_options_set_only_their_own(argv, number_ok, i + 2, ArgsModel { max_mb: Some(argv[i + 1]), ..st });
            if encoder_named(argv[i + 1]) is Some {
                lemma_options_set_only_their_own(argv, number_ok, i + 2, ArgsModel { encoder: encoder_named(argv[i + 1])->0, ..st });
            }
            if spec_parse_u32(argv[i + 1]) is Some {
                lemma_options_set_only_their_own(argv, number_ok, i + 2, ArgsModel { passes: spec_parse_u32(argv[i + 1])->0, ..st });
            }
            lemma_options_set_only_their_own(argv, number_ok, i + 2, ArgsModel { suffix: argv[i + 1], ..st });
            lemma_options_set_only_their_own(argv, number_ok, i + 2, ArgsModel { outdir: Some(argv[i + 1]), ..st });
        }
        lemma_options_set_only_their_own(argv, number_ok, i + 1, ArgsModel { keep_fps: true, ..st });
        lemma_options_set_only_their_own(argv, number_ok, i + 1, ArgsModel { no_audio: true, ..st });
        lemma_options_set_only_their_own(argv, number_ok, i + 1, ArgsModel { inputs: st.inputs.push(a), ..st });
    }
}

/// A command line that does not mention an option gets that setting's
/// default: audio copied, frame rate capping allowed, 3 passes, automatic
/// encoder, `_discord` suffix, the default ceiling, the input's directory.
/// `--keep-fps` or `--no-audio` as the first argument turns its switch on.
pub proof fn lemma_parse_defaults(argv: Seq<Seq<char>>, number_ok: Seq<bool>)
    ensures
        spec_parse_args(argv, number_ok) matches ParseModel::Run(m) ==> {
            &&& (absent(argv, 0, "--no-audio"@) ==> !m.no_audio)
            &&& (absent(argv, 0, "--keep-fps"@) ==> !m.keep_fps)
            &&& (absent(argv, 0, "--passes"@) ==> m.passes == 3)
            &&& (absent(argv, 0, "--encoder"@) ==> m.encoder == Encoder::Auto)
            &&& (absent(argv, 0, "--suffix"@) ==> m.suffix == "_discord"@)
            &&& (absent(argv, 0, "--max-mb"@) ==> m.max_mb is None)
            &&& (absent(argv, 0, "-o"@) && absent(argv, 0, "--outdir"@) ==> m.outdir is None)
            &&& (argv.len() > 0 && argv[0] == "--keep-fps"@ ==> m.keep_fps)
            &&& (argv.len() > 0 && argv[0] == "--no-audio"@ ==> m.no_audio)
        },
{
    lemma_options_set_only_their_own(argv, number_ok, 0, default_args());
    if argv.len() > 0 && (argv[0] == "--keep-fps"@ || argv[0] == "--no-audio"@) {
        reveal_strlit("-h");
        reveal_strlit("--help");
        reveal_strlit("--max-mb");
        reveal_strlit("--encoder");
        reveal_strlit("--passes");
        reveal_strlit("--suffix");
        reveal_strlit("-o");
        reveal_strlit("--outdir");
        reveal_strlit("--keep-fps");
        reveal_strlit("--no-audio");
        assert("--keep-fps"@[2] != "--no-audio"@[2]);
        assert("--keep-fps"@.len() == 10 && "--no-audio"@.len() == 10);
            assert(argv[0] != "-h"@) by { assert("-h"@.len() == 2); assert(argv[0].len() == 10); }
            assert(argv[0] != "--help"@) by { assert("--help"@.len() == 6); assert(argv[0].len() == 10); }
            assert(argv[0] != "--max-mb"@) by { assert("--max-mb"@.len() == 8); assert(argv[0].len() == 10); }
            assert(argv[0] != "--encoder"@) by { assert("--encoder"@.len() == 9); assert(argv[0].len() == 10); }
            assert(argv[0] != "--passes"@) by { assert("--passes"@.len() == 8); assert(argv[0].len() == 10); }
            assert(argv[0] != "--suffix"@) by { assert("--suffix"@.len() == 8); assert(argv[0].len() == 10); }
            assert(argv[0] != "-o"@) by { assert("-o"@.len() == 2); assert(argv[0].len() == 10); }
            assert(argv[0] != "--outdir"@) by { assert("--outdir"@.len() == 8); assert(argv[0].len() == 10); }
        if argv[0] == "--keep-fps"@ {
            assert(argv[0] != "--no-audio"@);
            assert(spec_parse_args(argv, number_ok) == parse_from(argv, number_ok, 1, ArgsModel { keep_fps: true, ..default_args() }));
            lemma_options_set_only_their_own(argv, number_ok, 1, ArgsModel { keep_fps: true, ..default_args() });
        } else {
            assert(spec_parse_args(argv, number_ok) == parse_from(argv, number_ok, 1, ArgsModel { no_audio: true, ..default_args() }));
            lemma_options_set_only_their_own(argv, number_ok, 1, ArgsModel { no_audio: true, ..default_args() });
        }
    }
}

pub open spec fn spec_parse_args(argv: Seq<Seq<char>>, number_ok: Seq<bool>) -> ParseModel {
    parse_from(argv, number_ok, 0, default_args())
}

/// Reading back the decimal digits of `n` gives `n`: they are all digits and
/// only `0` itself starts with `0`.
pub proof fn lemma_digits_read_back(n: nat)
    ensures
        all_digits(nat_digits(n)),
        digits_value(nat_digits(n)) == n,
        nat_digits(n).len() >= 1,
        n > 0 ==> nat_digits(n)[0] != '0',
    decreases n,
{
    let d = (n % 10) as int;
    assert((digit_char(d) as int) - ('0' as int) == d) by {
        if d == 0 {} else if d == 1 {} else if d == 2 {} else if d == 3 {} else if d == 4 {}
        else if d == 5 {} else if d == 6 {} else if d == 7 {} else if d == 8 {} else {}
    }
    assert(digits_value(Seq::<char>::empty()) == 0);
    if n < 10 {
        assert(n % 10 == n);
        assert(nat_digits(n) =~= seq![digit_char(n as int)]);
        assert(nat_digits(n).drop_last() =~= Seq::<char>::empty());
    } else {
        lemma_digits_read_back(n / 10);
        let a = nat_digits(n / 10);
        let b = seq![digit_char((n % 10) as int)];
        assert(nat_digits(n) == a + b);
        assert((a + b).drop_last() =~= a);
        assert((a + b).last() == digit_char((n % 10) as int));
        assert forall|i: int| 0 <= i < (a + b).len() implies is_digit(#[trigger] (a + b)[i]) by {
            if i < a.len() {
                assert((a + b)[i] == a[i]);
            }
        }
        assert((a + b)[0] == a[0]);
    }
}

/// A decimal rendering reads back as the number: digits for a non-negative
/// number, a `-` followed by the digits of its magnitude for a negative one.
pub proof fn lemma_decimal_reads_back(x: int)
    ensures
        x >= 0 ==> all_digits(decimal(x)) && digits_value(decimal(x)) == x,
        x < 0 ==> decimal(x)[0] == '-' && all_digits(decimal(x).drop_first())
            && digits_value(decimal(x).drop_first()) == -x,
{
    if x >= 0 {
        lemma_digits_read_back(x as nat);
    } else {
        lemma_digits_read_back((-x) as nat);
        assert(decimal(x).drop_first() =~= nat_digits((-x) as nat));
    }
}

/// What `u32::from_str` accepts: the decimal rendering of every `u32` reads
/// back as itself, also after a `+`; an accepted text is one or more digits
/// after an optional `+` (so a sign `-`, spaces or an empty text are refused).
pub proof fn lemma_u32_reading(n: u32, s: Seq<char>)
    ensures
        spec_parse_u32(nat_digits(n as nat)) == Some(n),
        spec_parse_u32(seq!['+'] + nat_digits(n as nat)) == Some(n),
        spec_parse_u32(s) is Some ==> s.len() >= 1 && (is_digit(s[0]) || (s[0] == '+' && s.len() >= 2)),
        spec_parse_u32(s) is Some ==> forall|i: int| 1 <= i < s.len() ==> is_digit(#[trigger] s[i]),
        s.len() > 0 && s[0] == '-' ==> spec_parse_u32(s) is None,
{
    lemma_digits_read_back(n as nat);
    let d = nat_digits(n as nat);
    assert(is_digit(d[0]));
    assert((seq!['+'] + d).drop_first() =~= d);
    if spec_parse_u32(s) is Some {
        let t = if s.len() > 0 && s[0] == '+' { s.drop_first() } else { s };
        assert forall|i: int| 1 <= i < s.len() implies is_digit(#[trigger] s[i]) by {
            if s[0] == '+' {
                assert(s[i] == t[i - 1]);
            } else {
                assert(s[i] == t[i]);
            }
        }
        if s[0] != '+' {
            assert(is_digit(t[0]));
        }
    }
    if s.len() > 0 && s[0] == '-' {
        assert(!is_digit(s[0]));
    }
}

/// The `--encoder` names: `auto`, `nvenc`, `x264` and `openh264` select the
/// encoder of that name.
pub proof fn lemma_encoder_names()
    ensures
        encoder_named("auto"@) == Some(Encoder::Auto),
        encoder_named("nvenc"@) == Some(Encoder::Nvenc),
        encoder_named("x264"@) == Some(Encoder::X264),
        encoder_named("openh264"@) == Some(Encoder::OpenH264),
{
    reveal_strlit("auto");
    reveal_strlit("nvenc");
    reveal_strlit("x264");
    reveal_strlit("openh264");
    assert("nvenc"@ != "auto"@) by { assert("nvenc"@.len() != "auto"@.len()); }
    assert("x264"@ != "auto"@) by { assert("x264"@[0] != "auto"@[0]); }
    assert("x264"@ != "nvenc"@) by { assert("x264"@.len() != "nvenc"@.len()); }
    assert("openh264"@ != "auto"@) by { assert("openh264"@.len() != "auto"@.len()); }
    assert("openh264"@ != "nvenc"@) by { assert("openh264"@.len() != "nvenc"@.len()); }
    assert("openh264"@ != "x264"@) by { assert("openh264"@.len() != "x264"@.len()); }
}

// ---------------------------------------------------------------------------
// Text helpers
// ---------------------------------------------------------------------------

/// Whether two strings hold the same characters.
pub fn str_eq(a: &str, b: &str) -> (r: bool)
    ensures
        r == (a@ == b@),
{
    let n = a.unicode_len();
    if n != b.unicode_len() {
        return false;
    }
    let mut i: usize = 0;
    while i < n
        invariant
            n == a@.len(),
            n == b@.len(),
            i <= n,
            forall|j: int| 0 <= j < i ==> a@[j] == b@[j],
        decreases n - i,
    {
        if a.get_char(i) != b.get_char(i) {
            return false;
        }
        i += 1;
    }
    assert(a@ =~= b@);
    true
}

proof fn lemma_prefix_value_le(d: Seq<char>, k: int)
    requires
        all_digits(d),
        0 <= k <= d.len(),
    ensures
        digits_value(d.take(k)) <= digits_value(d),
    decreases d.len(),
{
    if k < d.len() {
        let p = d.drop_last();
        assert(all_digits(p)) by {
            assert forall|i: int| 0 <= i < p.len() implies is_digit(#[trigger] p[i]) by {
                assert(p[i] == d[i]);
            }
        }
        lemma_prefix_value_le(p, k);
        assert(d.take(k) =~= p.take(k));
        assert(is_digit(d[d.len() - 1]));
    } else {
        assert(d.take(k) =~= d);
    }
}

/// Read a `u32` the way `u32::from_str` does.
pub fn parse_u32(s: &str) -> (r: Option<u32>)
    ensures
        r == spec_parse_u32(s@),
{
    let n = s.unicode_len();
    if n == 0 {
        return None;
    }
    let start: usize = if s.get_char(0) == '+' { 1 } else { 0 };
    let ghost d = if s@.len() > 0 && s@[0] == '+' { s@.drop_first() } else { s@ };
    assert(d =~= s@.subrange(start as int, n as int));
    if start == n {
        return None;
    }
    let mut acc: u64 = 0;
    let mut i: usize = start;
    while i < n
        invariant
            n == s@.len(),
            d == (if s@.len() > 0 && s@[0] == '+' { s@.drop_first() } else { s@ }),
            d =~= s@.subrange(start as int, n as int),
            start <= i <= n,
            start < n,
            forall|j: int| 0 <= j < i - start ==> is_digit(#[trigger] d[j]),
            acc == digits_value(d.take(i - start)),
            acc <= u32::MAX,
        decreases n - i,
    {
        let c = s.get_char(i);
        assert(c == d[i - start]);
        if !('0' <= c && c <= '9') {
            assert(!is_digit(d[i - start]));
            assert(!all_digits(d));
            assert(spec_parse_u32(s@) is None);
            return None;
        }
        let dv: u64 = (c as u32 - '0' as u32) as u64;
        assert(d.take(i - start + 1).drop_last() =~= d.take(i - start));
        assert(d.take(i - start + 1).last() == c);
        let next: u64 = acc * 10 + dv;
        assert(next == digits_value(d.take(i - start + 1)));
        if next > 0xffff_ffff {
            proof {
                if all_digits(d) {
                    lemma_prefix_value_le(d, i - start + 1);
                }
                assert(spec_parse_u32(s@) is None);
            }
            return None;
        }
        acc = next;
        i += 1;
    }
    assert(d.take(n - start) =~= d);
    assert(all_digits(d));
    Some(acc as u32)
}

/// The argument after a flag: `argv[pos]`, or an error naming the flag when the
/// arguments have run out.
pub fn next_val(argv: &Vec<String>, pos: usize, flag: &str) -> (r: Result<String, ArgError>)
    ensures
        pos < argv@.len() ==> (r matches Ok(v) && v@ == argv@[pos as int]@),
        pos >= argv@.len() ==> (r matches Err(e) && e.model() == ArgErrorModel::MissingValue(flag@)),
{
    if pos < argv.len() {
        Ok(argv[pos].clone())
    } else {
        Err(ArgError::MissingValue(String::from_str(flag)))
    }
}

fn encoder_from_name(s: &str) -> (r: Option<Encoder>)
    ensures
        r == encoder_named(s@),
{
    if str_eq(s, "auto") {
        Some(Encoder::Auto)
    } else if str_eq(s, "nvenc") {
        Some(Encoder::Nvenc)
    } else if str_eq(s, "x264") {
        Some(Encoder::X264)
    } else if str_eq(s, "openh264") {
        Some(Encoder::OpenH264)
    } else {
        None
    }
}

// ---------------------------------------------------------------------------
// Parsing
// ---------------------------------------------------------------------------

/// Read the command line (without the program name). `number_ok[j]` says
/// whether `argv[j]` reads as a decimal number, as `--max-mb` needs.
pub fn parse_args(argv: &Vec<String>, number_ok: &Vec<bool>) -> (r: Result<Command, ArgError>)
    requires
        number_ok@.len() == argv@.len(),
    ensures
        result_model(r) == spec_parse_args(strings_view(argv@), number_ok@),
        r matches Ok(Command::Run(a)) ==> a.inputs@.len() > 0 && a.passes >= 1,
        r matches Ok(Command::Run(a)) ==> (absent(strings_view(argv@), 0, "--no-audio"@) ==> !a.no_audio),
        r matches Ok(Command::Run(a)) ==> (absent(strings_view(argv@), 0, "--keep-fps"@) ==> !a.keep_fps),
{
    proof {
        lemma_run_has_inputs_and_passes(strings_view(argv@), number_ok@, 0, default_args());
        lemma_parse_defaults(strings_view(argv@), number_ok@);
    }
    let ghost av = strings_view(argv@);
    let mut args = CliArgs {
        inputs: Vec::new(),
        max_mb: None,
        encoder: Encoder::Auto,
        passes: 3,
        suffix: String::from_str("_discord"),
        outdir: None,
        keep_fps: false,
        no_audio: false,
    };
    assert(strings_view(args.inputs@) =~= Seq::<Seq<char>>::empty());
    assert(args.model() == default_args());
    let n = argv.len();
    let mut i: usize = 0;
    while i < n
        invariant
            n == argv@.len(),
            number_ok@.len() == n,
            av == strings_view(argv@),
            i <= n,
            spec_parse_args(av, number_ok@) == parse_from(av, number_ok@, i as int, args.model()),
        decreases n - i,
    {
        let ghost st = args.model();
        let a: &str = argv[i].as_str();
        assert(a@ == av[i as int]);
        if i + 1 < n {
            assert(av[i + 1] == argv@[i + 1]@);
        }
        if str_eq(a, "-h") || str_eq(a, "--help") {
            return Ok(Command::Help);
        } else if str_eq(a, "--max-mb") {
            let v = match next_val(argv, i + 1, "--max-mb") {
                Ok(v) => v,
                Err(e) => {
                    return Err(e);
                },
            };
            if !number_ok[i + 1] {
                return Err(ArgError::BadMaxMb(v));
            }
            args.max_mb = Some(v);
            i = i + 2;
        } else if str_eq(a, "--encoder") {
            let v = match next_val(argv, i + 1, "--encoder") {
                Ok(v) => v,
                Err(e) => {
                    return Err(e);
                },
            };
            match encoder_from_name(v.as_str()) {
                Some(e) => {
                    args.encoder = e;
                },
                None => {
                    return Err(ArgError::UnknownEncoder(v));
                },
            }
            i = i + 2;
        } else if str_eq(a, "--passes") {
            let v = match next_val(argv, i + 1, "--passes") {
                Ok(v) => v,
                Err(e) => {
                    return Err(e);
                },
            };
            match parse_u32(v.as_str()) {
                Some(p) => {
                    args.passes = p;
                },
                None => {
                    return Err(ArgError::BadPasses(v));
                },
            }
            i = i + 2;
        } else if str_eq(a, "--suffix") {
            let v = match next_val(argv, i + 1, "--suffix") {
                Ok(v) => v,
                Err(e) => {
                    return Err(e);
                },
            };
            args.suffix = v;
            i = i + 2;
        } else if str_eq(a, "-o") || str_eq(a, "--outdir") {
            let v = match next_val(argv, i + 1, "--outdir") {
                Ok(v) => v,
                Err(e) => {
                    return Err(e);
                },
            };
            args.outdir = Some(v);
            i = i + 2;
        } else if str_eq(a, "--keep-fps") {
            args.keep_fps = true;
            i = i + 1;
        } else if str_eq(a, "--no-audio") {
            args.no_audio = true;
            i = i + 1;
        } else if a.unicode_len() > 0 && a.get_char(0) == '-' && !str_eq(a, "-") {
            return Err(ArgError::UnknownOption(argv[i].clone()));
        } else {
            let ghost before = args.inputs@;
            args.inputs.push(argv[i].clone());
            assert(strings_view(args.inputs@) =~= strings_view(before).push(av[i as int]));
            i = i + 1;
        }
    }
    if args.inputs.len() == 0 {
        return Err(ArgError::NoInputs);
    }
    if args.passes == 0 {
        return Err(ArgError::ZeroPasses);
    }
    Ok(Command::Run(args))
}

// ---------------------------------------------------------------------------
// Output location
// ---------------------------------------------------------------------------

/// What `std::path::Path::file_stem` gives for a path (the file name without
/// its final extension), as the standard library parses paths for the target
/// the crate is built for.
pub uninterp spec fn path_file_stem(path: Seq<char>) -> Option<Seq<char>>;

/// What `std::path::Path::parent` gives for a path, as the standard library
/// parses paths for the target the crate is built for.
pub uninterp spec fn path_parent(path: Seq<char>) -> Option<Seq<char>>;

/// What `std::path::Path::join` gives for a base path and a pushed path, as
/// the standard library spells paths for the target the crate is built for.
pub uninterp spec fn path_join(base: Seq<char>, name: Seq<char>) -> Seq<char>;

/// `Path::file_stem`, read back as text. For a path given as UTF-8 text the
/// stem is UTF-8 too, so the lossy conversion changes nothing.
#[verifier::external_body]
fn file_stem(path: &str) -> (r: Option<String>)
    ensures
        opt_view(r) == path_file_stem(path@),
{
    match std::path::Path::new(path).file_stem() {
        Some(s) => Some(s.to_string_lossy().into_owned()),
        None => None,
    }
}

/// `Path::parent`, read back as text (UTF-8 in, UTF-8 out).
#[verifier::external_body]
fn parent_dir(path: &str) -> (r: Option<String>)
    ensures
        opt_view(r) == path_parent(path@),
{
    match std::path::Path::new(path).parent() {
        Some(p) => Some(p.to_string_lossy().into_owned()),
        None => None,
    }
}

/// `Path::join`, read back as text (UTF-8 in, UTF-8 out).
#[verifier::external_body]
fn join_path(base: &str, name: &str) -> (r: String)
    ensures
        r@ == path_join(base@, name@),
{
    std::path::Path::new(base).join(name).to_string_lossy().into_owned()
}

/// `<stem><suffix>.mp4`, with `output` standing in for a missing stem.
pub open spec fn spec_output_file_name(stem: Option<Seq<char>>, suffix: Seq<char>) -> Seq<char> {
    (match stem {
        Some(s) => s,
        None => "output"@,
    }) + suffix + ".mp4"@
}

/// The output directory: the one asked for, else the input's parent, else `.`.
pub open spec fn spec_output_dir(input: Seq<char>, outdir: Option<Seq<char>>) -> Seq<char> {
    match outdir {
        Some(d) => d,
        None => match path_parent(input) {
            Some(p) => p,
            None => "."@,
        },
    }
}

pub open spec fn spec_output_path(input: Seq<char>, suffix: Seq<char>, outdir: Option<Seq<char>>) -> Seq<char> {
    path_join(spec_output_dir(input, outdir), spec_output_file_name(path_file_stem(input), suffix))
}

/// An output file name is the input's stem (or `output`) followed by the
/// suffix and the `.mp4` extension.
pub proof fn lemma_output_file_name(stem: Option<Seq<char>>, suffix: Seq<char>)
    ensures
        ({
            let n = spec_output_file_name(stem, suffix);
            let base = if stem is Some { stem->0 } else { "output"@ };
            &&& n.len() == base.len() + suffix.len() + 4
            &&& n.subrange(0, base.len() as int) == base
            &&& n.subrange(base.len() as int, (base.len() + suffix.len()) as int) == suffix
            &&& n.subrange(n.len() - 4, n.len() as int) == seq!['.', 'm', 'p', '4']
        }),
{
    reveal_strlit(".mp4");
    let n = spec_output_file_name(stem, suffix);
    let base = if stem is Some { stem->0 } else { "output"@ };
    assert(n == base + suffix + ".mp4"@);
    assert(n.subrange(0, base.len() as int) =~= base);
    assert(n.subrange(base.len() as int, (base.len() + suffix.len()) as int) =~= suffix);
    assert(n.subrange(n.len() - 4, n.len() as int) =~= seq!['.', 'm', 'p', '4']);
}

/// The file name an output gets: the input's stem (or `output`), the suffix,
/// and `.mp4`.
pub fn output_file_name(stem: Option<String>, suffix: &str) -> (r: String)
    ensures
        r@ == spec_output_file_name(opt_view(stem), suffix@),
        r@.len() >= 4,
{
    let mut name = match stem {
        Some(s) => s,
        None => String::from_str("output"),
    };
    name.append(suffix);
    name.append(".mp4");
    proof {
        reveal_strlit(".mp4");
    }
    name
}

/// The directory an output goes to: the one asked for, else the input's
/// parent directory, else the current one (`.`).
pub fn output_dir(parent: Option<String>, outdir: Option<&str>) -> (r: String)
    ensures
        r@ == (match outdir {
            Some(d) => d@,
            None => match parent {
                Some(p) => p@,
                None => "."@,
            },
        }),
{
    match outdir {
        Some(d) => String::from_str(d),
        None => match parent {
            Some(p) => p,
            None => String::from_str("."),
        },
    }
}

/// Where the output for `input` is written: `<dir>/<stem><suffix>.mp4`, with
/// `dir` the requested output directory, else the input's own directory,
/// else the current one.
pub fn output_path(input: &str, suffix: &str, outdir: Option<&str>) -> (r: String)
    ensures
        r@ == spec_output_path(input@, suffix@, match outdir {
            Some(d) => Some(d@),
            None => None,
        }),
{
    let stem = file_stem(input);
    let name = output_file_name(stem, suffix);
    let dir = output_dir(parent_dir(input), outdir);
    join_path(dir.as_str(), name.as_str())
}

/// What `==` on `std::path::Path` gives (paths compared component by
/// component), as the standard library parses paths for the target the crate
/// is built for.
pub uninterp spec fn paths_equal(a: Seq<char>, b: Seq<char>) -> bool;

/// `Path == Path` on two paths given as text.
#[verifier::external_body]
fn same_path(a: &str, b: &str) -> (r: bool)
    ensures
        r == paths_equal(a@, b@),
{
    std::path::Path::new(a) == std::path::Path::new(b)
}

/// The output path would be the input itself.
#[derive(Clone, Copy, Debug, PartialEq, Eq, Structural)]
pub struct WouldOverwrite;

/// The output path for `input`, refused when it names the input itself: the
/// source file is never overwritten.
pub fn checked_output_path(input: &str, suffix: &str, outdir: Option<&str>) -> (r: Result<String, WouldOverwrite>)
    ensures
        ({
            let out = spec_output_path(input@, suffix@, match outdir {
                Some(d) => Some(d@),
                None => None,
            });
            match r {
                Ok(o) => o@ == out && !paths_equal(out, input@),
                Err(_) => paths_equal(out, input@),
            }
        }),
{
    let output = output_path(input, suffix, outdir);
    if same_path(output.as_str(), input) {
        Err(WouldOverwrite)
    } else {
        Ok(output)
    }
}

} // verus!
