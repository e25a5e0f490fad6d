//! The command line of an XML diff run: the options that it declares, what
//! `getopts` finds of them in the arguments, and the settings built from
//! what it finds.
use vstd::prelude::*;
use crate::config::{Config, chosen_mode, closing_keys};
use crate::payload::{parse_usize, is_digit, digits_value, unsigned_digits};
use crate::text::{text, joined, texts};

verus! {

broadcast use vstd::string::group_string_axioms;

/// A flag as declared: short name, long name, description, and the name by
/// which it is looked up.
pub type FlagView = (Seq<char>, Seq<char>, Seq<char>, Seq<char>);

/// An option with a value as declared: short name, long name,
/// description, hint, and the name by which it is looked up.
pub type OptView = (Seq<char>, Seq<char>, Seq<char>, Seq<char>, Seq<char>);

/// What `getopts` finds in the arguments for the declared flags and then
/// the declared options, in order: whether each is present and the value
/// given to it; or the text of its parse failure.
pub uninterp spec fn getopts_values(
    args: Seq<Seq<char>>,
    long_only: bool,
    flags: Seq<FlagView>,
    options: Seq<OptView>,
) -> Result<Seq<(bool, Option<Seq<char>>)>, Seq<char>>;

/// A name that `getopts` accepts as a short name: none, or one ASCII
/// character.
pub open spec fn short_name_ok(s: Seq<char>) -> bool {
    s.len() == 0 || (s.len() == 1 && (s[0] as u32) < 128)
}

/// A name that `getopts` accepts as a long name: none, or more than one
/// character.
pub open spec fn long_name_ok(s: Seq<char>) -> bool {
    s.len() == 0 || s.len() > 1
}

/// A lookup name that finds the entry: its short name or, when longer than
/// one character, its long name.
pub open spec fn key_ok(short: Seq<char>, long: Seq<char>, key: Seq<char>) -> bool {
    (key.len() == 1 && key == short) || (key.len() > 1 && key == long)
}

/// Every declared name is one that `getopts` accepts, and every lookup
/// name finds its entry.
pub open spec fn table_ok(flags: Seq<FlagView>, options: Seq<OptView>) -> bool {
    &&& forall|i: int|
        0 <= i < flags.len() ==> short_name_ok((#[trigger] flags[i]).0) && long_name_ok(flags[i].1)
            && key_ok(flags[i].0, flags[i].1, flags[i].3)
    &&& forall|i: int|
        0 <= i < options.len() ==> short_name_ok((#[trigger] options[i]).0) && long_name_ok(
            options[i].1,
        ) && key_ok(options[i].0, options[i].1, options[i].4)
}

pub open spec fn flags_view(v: Seq<(String, String, String, String)>) -> Seq<FlagView> {
    v.map_values(|f: (String, String, String, String)| (f.0@, f.1@, f.2@, f.3@))
}

pub open spec fn options_view(v: Seq<(String, String, String, String, String)>) -> Seq<OptView> {
    v.map_values(|o: (String, String, String, String, String)| (o.0@, o.1@, o.2@, o.3@, o.4@))
}

pub open spec fn found_view(v: Seq<(bool, Option<String>)>) -> Seq<(bool, Option<Seq<char>>)> {
    v.map_values(
        |x: (bool, Option<String>)|
            (
                x.0,
                match x.1 {
                    Some(s) => Some(s@),
                    None => None,
                },
            ),
    )
}

pub open spec fn parsed_view(r: Result<Vec<(bool, Option<String>)>, String>) -> Result<
    Seq<(bool, Option<Seq<char>>)>,
    Seq<char>,
> {
    match r {
        Ok(v) => Ok(found_view(v@)),
        Err(e) => Err(e@),
    }
}

/// Declares the flags and options with `getopts::Options` (`long_only`,
/// `optflag`, `optopt`), parses the arguments with `Options::parse`, and
/// looks each entry up with `Matches::opt_present` and `Matches::opt_str`.
/// Trusted: the outcome is `getopts_values` of the arguments and the
/// table, with one pair per declared entry; a failure is the failure's
/// text. The names must be ones that `getopts` accepts, else it panics.
#[verifier::external_body]
fn parse_options(
    args: &Vec<String>,
    long_only: bool,
    flags: &Vec<(String, String, String, String)>,
    options: &Vec<(String, String, String, String, String)>,
) -> (r: Result<Vec<(bool, Option<String>)>, String>)
    requires
        table_ok(flags_view(flags@), options_view(options@)),
    ensures
        parsed_view(r) == getopts_values(texts(args@), long_only, flags_view(flags@), options_view(options@)),
        r matches Ok(v) ==> v@.len() == flags@.len() + options@.len(),
{
    let mut opts = getopts::Options::new();
    opts.long_only(long_only);
    for f in flags { opts.optflag(&f.0, &f.1, &f.2); }
    for o in options { opts.optopt(&o.0, &o.1, &o.2, &o.3); }
    match opts.parse(args) {
        Ok(m) => {
            let mut found = Vec::new();
            for f in flags { found.push((m.opt_present(&f.3), m.opt_str(&f.3))); }
            for o in options { found.push((m.opt_present(&o.4), m.opt_str(&o.4))); }
            Ok(found)
        },
        Err(f) => Err(f.to_string()),
    }
}

/// What `str::parse::<i8>` gives: an optional '+' or '-', then at least
/// one decimal digit, and a value that fits in `i8`.
pub open spec fn parse_i8(s: Seq<char>) -> Option<i8> {
    if s.len() > 0 && s[0] == '-' {
        let d = s.drop_first();
        if d.len() > 0 && (forall|i: int| 0 <= i < d.len() ==> is_digit(#[trigger] d[i])) && digits_value(d)
            <= 128 {
            Some((0 - digits_value(d)) as i8)
        } else {
            None
        }
    } else {
        let d = unsigned_digits(s);
        if d.len() > 0 && (forall|i: int| 0 <= i < d.len() ==> is_digit(#[trigger] d[i])) && digits_value(d)
            <= 127 {
            Some(digits_value(d) as i8)
        } else {
            None
        }
    }
}

/// The text of the error of `str::parse::<usize>` on a text it rejects.
pub uninterp spec fn usize_parse_error(s: Seq<char>) -> Seq<char>;

/// The text of the error of `str::parse::<i8>` on a text it rejects.
pub uninterp spec fn i8_parse_error(s: Seq<char>) -> Seq<char>;

/// Parses a `usize` with std's `str::parse::<usize>`. Trusted: it succeeds
/// exactly on the texts that `parse_usize` reads, with that number (std
/// documents an optional '+' followed by decimal digits, and an error when
/// the value does not fit); a failure is the error's text.
#[verifier::external_body]
fn parse_usize_std(s: &str) -> (r: Result<usize, String>)
    ensures
        match r {
            Ok(n) => parse_usize(s@) == Some(n),
            Err(e) => parse_usize(s@) is None && e@ == usize_parse_error(s@),
        },
{
    match s.parse::<usize>() {
        Ok(n) => Ok(n),
        Err(e) => Err(e.to_string()),
    }
}

/// Parses an `i8` with std's `str::parse::<i8>`. Trusted: it succeeds
/// exactly on the texts that `parse_i8` reads, with that number (std
/// documents an optional '+' or '-' followed by decimal digits, and an
/// error when the value does not fit); a failure is the error's text.
#[verifier::external_body]
fn parse_i8_std(s: &str) -> (r: Result<i8, String>)
    ensures
        match r {
            Ok(n) => parse_i8(s@) == Some(n),
            Err(e) => parse_i8(s@) is None && e@ == i8_parse_error(s@),
        },
{
    match s.parse::<i8>() {
        Ok(n) => Ok(n),
        Err(e) => Err(e.to_string()),
    }
}

/// The flags of the command line: only help.
pub open spec fn flag_table() -> Seq<FlagView> {
    seq![("h"@, "help"@, "print this help menu"@, "h"@)]
}

/// The options of the command line, each with a value: mode, the two
/// input files (looked up as "i1" and "i2", written "-i1" and "-i2" with
/// single-dash long names), output file, chunk delimiter, read size, bind
/// address, key fields, concurrency, verbosity, and whether to use index
/// files.
pub open spec fn option_table() -> Seq<OptView> {
    seq![
        ("m"@, "mode"@, "Operating mode, see help for more info"@, "MODE"@, "m"@),
        (""@, "i1"@, "Input File 1"@, "FILE"@, "i1"@),
        (""@, "i2"@, "Input File 2"@, "FILE"@, "i2"@),
        ("o"@, "outputFile"@, "Output File "@, "FILE"@, "o"@),
        ("d"@, "delimiter"@, "XML Chunk Delimiter"@, "GROUPINGTAG"@, "d"@),
        ("s"@, "size"@, "File read size"@, "SIZE"@, "s"@),
        ("b"@, "bindAddress"@, "Bind to this address"@, "bind socket"@, "b"@),
        ("k"@, "keyFields"@, "Comma separated list of tags in the XML Chunk that will be use to set a unique ID"@, "TAG1,TAG2,TAG3"@, "k"@),
        ("c"@, "concurrency"@, "Run the parsing in separate threads"@, "SIZE"@, "c"@),
        ("v"@, "verbosity"@, "Set verbosity level"@, "SIZE"@, "v"@),
        ("u"@, "use_index_files"@, "Use Index Files"@, "BOOL"@, "u"@)
    ]
}

fn flags_of_table() -> (r: Vec<(String, String, String, String)>)
    ensures
        flags_view(r@) == flag_table(),
{
    let mut v: Vec<(String, String, String, String)> = Vec::new();
    v.push((text("h"), text("help"), text("print this help menu"), text("h")));
    assert(flags_view(v@) =~= flag_table());
    v
}

fn options_of_table() -> (r: Vec<(String, String, String, String, String)>)
    ensures
        options_view(r@) == option_table(),
{
    let mut v: Vec<(String, String, String, String, String)> = Vec::new();
    v.push((text("m"), text("mode"), text("Operating mode, see help for more info"), text("MODE"), text("m")));
    v.push((text(""), text("i1"), text("Input File 1"), text("FILE"), text("i1")));
    v.push((text(""), text("i2"), text("Input File 2"), text("FILE"), text("i2")));
    v.push((text("o"), text("outputFile"), text("Output File "), text("FILE"), text("o")));
    v.push((text("d"), text("delimiter"), text("XML Chunk Delimiter"), text("GROUPINGTAG"), text("d")));
    v.push((text("s"), text("size"), text("File read size"), text("SIZE"), text("s")));
    v.push((text("b"), text("bindAddress"), text("Bind to this address"), text("bind socket"), text("b")));
    v.push((text("k"), text("keyFields"), text("Comma separated list of tags in the XML Chunk that will be use to set a unique ID"), text("TAG1,TAG2,TAG3"), text("k")));
    v.push((text("c"), text("concurrency"), text("Run the parsing in separate threads"), text("SIZE"), text("c")));
    v.push((text("v"), text("verbosity"), text("Set verbosity level"), text("SIZE"), text("v")));
    v.push((text("u"), text("use_index_files"), text("Use Index Files"), text("BOOL"), text("u")));
    assert(options_view(v@) =~= option_table());
    v
}

/// The names of the table are ones that `getopts` accepts.
proof fn lemma_table_ok()
    ensures
        table_ok(flag_table(), option_table()),
{
        reveal_strlit("");
        reveal_strlit("b");
        reveal_strlit("bindAddress");
        reveal_strlit("c");
        reveal_strlit("concurrency");
        reveal_strlit("d");
        reveal_strlit("delimiter");
        reveal_strlit("h");
        reveal_strlit("help");
        reveal_strlit("i1");
        reveal_strlit("i2");
        reveal_strlit("k");
        reveal_strlit("keyFields");
        reveal_strlit("m");
        reveal_strlit("mode");
        reveal_strlit("o");
        reveal_strlit("outputFile");
        reveal_strlit("s");
        reveal_strlit("size");
        reveal_strlit("u");
        reveal_strlit("use_index_files");
        reveal_strlit("v");
        reveal_strlit("verbosity");
    let o = option_table();
    assert forall|i: int| 0 <= i < o.len() implies short_name_ok((#[trigger] o[i]).0) && long_name_ok(o[i].1)
        && key_ok(o[i].0, o[i].1, o[i].4) by {
        assert(0 <= i < 11);
    }
}

/// Why the command line gives no settings: `Fatal` where the run stops
/// (the arguments do not parse, or the read size overflows), `Invalid`
/// where a value is rejected with an error message.
pub enum ArgsError {
    Fatal(String),
    Invalid(String),
}

/// The value given to an option, or nothing.
pub open spec fn or_empty(o: Option<Seq<char>>) -> Seq<char> {
    match o {
        Some(s) => s,
        None => Seq::empty(),
    }
}

/// The read size given, if any, parses and fits once counted in KiB.
pub open spec fn size_ok(o: Option<Seq<char>>) -> bool {
    match o {
        None => true,
        Some(s) => parse_usize(s) matches Some(n) && n * 1024 <= usize::MAX,
    }
}

/// The read size in bytes: 32 KiB, or the KiB given.
pub open spec fn chunk_size_of(o: Option<Seq<char>>) -> int {
    match o {
        None => 32 * 1024int,
        Some(s) => parse_usize(s).unwrap() * 1024,
    }
}

/// The value given, if any, parses as an `i8`.
pub open spec fn i8_ok(o: Option<Seq<char>>) -> bool {
    match o {
        None => true,
        Some(s) => parse_i8(s) is Some,
    }
}

/// The `i8` given, or the default when none is given or it does not parse.
pub open spec fn i8_or(o: Option<Seq<char>>, default: i8) -> i8 {
    match o {
        Some(s) => match parse_i8(s) {
            Some(n) => n,
            None => default,
        },
        None => default,
    }
}

/// The warning for a verbosity that does not parse.
pub open spec fn verbosity_warning(o: Option<Seq<char>>) -> Option<Seq<char>> {
    match o {
        Some(s) => if parse_i8(s) is None {
            Some(
                "Warning: unable to parse verbosity level (-v) value '"@ + s + "': "@ + i8_parse_error(s)
                    + ". Using default: 1"@,
            )
        } else {
            None
        },
        None => None,
    }
}

/// The settings of `Config::new` with the mode "help".
pub open spec fn help_settings(c: Config) -> bool {
    &&& c.mode@ == "help"@
    &&& c.input_filename1@ == Seq::<char>::empty()
    &&& c.input_filename2@ == Seq::<char>::empty()
    &&& c.xml_keys@ == Seq::<String>::empty()
    &&& c.chunk_delimiter@ == Seq::<char>::empty()
    &&& c.chunk_size == 32 * 1024
    &&& c.concurrency == 4
    &&& c.bind_address@ == "ipc://test"@
    &&& c.verbosity == 1
    &&& c.use_index_files
}

/// The settings built from what `getopts` found (`v` in table order: help,
/// then mode, i1, i2, output, delimiter, size, bind, keys, concurrency,
/// verbosity, index files): each given value set as its builder sets it,
/// the defaults of `Config::new` otherwise.
pub open spec fn given_settings(c: Config, v: Seq<(bool, Option<Seq<char>>)>) -> bool {
    let f1 = or_empty(v[2].1);
    let f2 = or_empty(v[3].1);
    let keys = or_empty(v[8].1);
    let bind = or_empty(v[7].1);
    &&& c.mode@ == chosen_mode(or_empty(v[1].1))
    &&& c.input_filename1@ == (if f1.len() > 0 { f1 } else { f2 })
    &&& c.input_filename2@ == (if f1.len() > 0 { f2 } else { Seq::<char>::empty() })
    &&& (keys.len() == 0 ==> c.xml_keys@ == Seq::<String>::empty())
    &&& (keys.len() > 0 ==> texts(c.xml_keys@) == closing_keys(keys))
    &&& c.chunk_delimiter@ == or_empty(v[5].1)
    &&& c.chunk_size == chunk_size_of(v[6].1)
    &&& c.concurrency == i8_or(v[9].1, 4)
    &&& c.bind_address@ == (if bind.len() > 0 { bind } else { "ipc://test"@ })
    &&& c.verbosity == i8_or(v[10].1, 1)
    &&& c.use_index_files == v[11].0
}

/// The value given to an option, or an empty text.
fn value_or_empty(o: &Option<String>) -> (r: String)
    ensures
        r@ == or_empty(
            match o {
                Some(s) => Some(s@),
                None => None,
            },
        ),
{
    match o {
        Some(s) => s.clone(),
        None => String::new(),
    }
}

impl Config {
    /// The settings that a command line asks for, with the warning to show
    /// for a verbosity that does not parse. With help, the default
    /// settings in help mode. Otherwise the settings built from the values
    /// given; a read size that does not parse, or a concurrency that does
    /// not, is rejected with its message, and a read size that overflows
    /// once counted in KiB stops the run. Arguments that `getopts` cannot
    /// parse stop the run with its message.
    pub fn from_getopts(args: Vec<String>) -> (r: Result<(Config, Option<String>), ArgsError>)
        ensures
            ({
                let g = getopts_values(texts(args@), true, flag_table(), option_table());
                match g {
                    Err(e) => r matches Err(ArgsError::Fatal(m)) && m@ == e,
                    Ok(v) => if v[0].0 {
                        r matches Ok((c, w)) && w is None && help_settings(c)
                    } else if !size_ok(v[6].1) {
                        match parse_usize(v[6].1.unwrap()) {
                            Some(_) => r matches Err(ArgsError::Fatal(m)) && m@
                                == "attempt to multiply with overflow"@,
                            None => r matches Err(ArgsError::Invalid(m)) && m@
                                == "Error: unable to parse chunk size (-s) '"@ + v[6].1.unwrap() + "': "@
                                + usize_parse_error(v[6].1.unwrap()),
                        }
                    } else if !i8_ok(v[9].1) {
                        r matches Err(ArgsError::Invalid(m)) && m@ == "Error: unable to parse concurrency (-c) '"@
                            + v[9].1.unwrap() + "': "@ + i8_parse_error(v[9].1.unwrap()) + "."@
                    } else {
                        r matches Ok((c, w)) && given_settings(c, v) && match w {
                            Some(t) => verbosity_warning(v[10].1) == Some(t@),
                            None => verbosity_warning(v[10].1) is None,
                        }
                    },
                }
            }),
    {
        let flags = flags_of_table();
        let options = options_of_table();
        proof {
            lemma_table_ok();
        }
        let found = match parse_options(&args, true, &flags, &options) {
            Ok(v) => v,
            Err(e) => {
                return Err(ArgsError::Fatal(e));
            },
        };
        let ghost g = found_view(found@);
        proof {
            assert(flags_view(flags@).len() == flags@.len());
            assert(options_view(options@).len() == options@.len());
            assert(flag_table().len() == 1);
            assert(option_table().len() == 11);
            assert(g == getopts_values(texts(args@), true, flag_table(), option_table())->Ok_0);
        }
        assert(g.len() == 12);
        assert(g[0].0 == found@[0].0);
        if found[0].0 {
            return Ok((Config::new().with_mode(text("help")), None));
        }
        proof {
            assert forall|k: int| 0 <= k < 12 implies (#[trigger] g[k]).1 == match found@[k].1 {
                Some(s) => Some(s@),
                None => None,
            } && g[k].0 == found@[k].0 by {}
        }
        let mode = value_or_empty(&found[1].1);
        let file1 = value_or_empty(&found[2].1);
        let file2 = value_or_empty(&found[3].1);
        let delimiter = value_or_empty(&found[5].1);
        let bind = value_or_empty(&found[7].1);
        let keys = value_or_empty(&found[8].1);
        let mut res = Config::new()
            .with_mode(mode)
            .with_chunk_delimiter(delimiter.clone())
            .with_xml_keys(keys)
            .with_file(file1)
            .with_file(file2)
            .with_chunk_delimiter(delimiter)
            .with_use_index_files(found[11].0)
            .with_bind_address(bind);
        match &found[6].1 {
            Some(size) => match parse_usize_std(size.as_str()) {
                Ok(n) => {
                    if n > usize::MAX / 1024 {
                        return Err(ArgsError::Fatal(text("attempt to multiply with overflow")));
                    }
                    res = res.with_chunk_size(n);
                },
                Err(e) => {
                    let a = joined("Error: unable to parse chunk size (-s) '", size.as_str());
                    let b = joined(a.as_str(), "': ");
                    return Err(ArgsError::Invalid(joined(b.as_str(), e.as_str())));
                },
            },
            None => {},
        }
        match &found[9].1 {
            Some(c) => match parse_i8_std(c.as_str()) {
                Ok(n) => {
                    res = res.with_concurrency(n);
                },
                Err(e) => {
                    let a = joined("Error: unable to parse concurrency (-c) '", c.as_str());
                    let b = joined(a.as_str(), "': ");
                    let d = joined(b.as_str(), e.as_str());
                    return Err(ArgsError::Invalid(joined(d.as_str(), ".")));
                },
            },
            None => {},
        }
        let mut warning: Option<String> = None;
        match &found[10].1 {
            Some(level) => match parse_i8_std(level.as_str()) {
                Ok(n) => {
                    res = res.with_verbosity(n);
                },
                Err(e) => {
                    let a = joined("Warning: unable to parse verbosity level (-v) value '", level.as_str());
                    let b = joined(a.as_str(), "': ");
                    let d = joined(b.as_str(), e.as_str());
                    warning = Some(joined(d.as_str(), ". Using default: 1"));
                },
            },
            None => {},
        }
        proof {
            assert(size_ok(g[6].1));
            assert(i8_ok(g[9].1));
            assert(res.mode@ == chosen_mode(or_empty(g[1].1)));
            assert(res.chunk_delimiter@ == or_empty(g[5].1));
            assert(res.chunk_size == chunk_size_of(g[6].1));
            assert(res.concurrency == i8_or(g[9].1, 4));
            assert(res.verbosity == i8_or(g[10].1, 1));
            assert(res.use_index_files == g[11].0);
            let f1 = or_empty(g[2].1);
            let f2 = or_empty(g[3].1);
            let keys_v = or_empty(g[8].1);
            let bind_v = or_empty(g[7].1);
            assert(res.input_filename1@ == (if f1.len() > 0 { f1 } else { f2 }));
            assert(res.input_filename2@ == (if f1.len() > 0 { f2 } else { Seq::<char>::empty() }));
            assert(keys_v.len() == 0 ==> res.xml_keys@ == Seq::<String>::empty());
            assert(keys_v.len() > 0 ==> texts(res.xml_keys@) == closing_keys(keys_v));
            assert(res.bind_address@ == (if bind_v.len() > 0 { bind_v } else { "ipc://test"@ }));
            assert(given_settings(res, g));
        }
        Ok((res, warning))
    }
}

} // verus!
