//! `Config`
//! The settings of an XML diff run, built step by step from the command
//! line, checked by `build`, and acted upon by `run`.
use vstd::prelude::*;
use crate::text::{text, joined, same_text, texts, split_on, split_text};

verus! {

broadcast use vstd::string::group_string_axioms;

pub struct Config {
    pub mode: String,
    pub input_filename1: String,
    pub input_filename2: String,
    pub xml_keys: Vec<String>,
    pub chunk_delimiter: String,
    pub chunk_size: usize,
    pub concurrency: i8,
    pub bind_address: String,
    pub verbosity: i8,
    pub use_index_files: bool,
}

/// The modes that `with_mode` keeps; any other becomes "diff".
pub open spec fn known_mode(m: Seq<char>) -> bool {
    m == "help"@ || m == "checksum"@ || m == "validate"@ || m == "compare"@
}

/// The mode that `with_mode` sets.
pub open spec fn chosen_mode(m: Seq<char>) -> Seq<char> {
    if known_mode(m) {
        m
    } else {
        "diff"@
    }
}

/// Whatever mode `with_mode` is given, it sets a mode that `run` accepts.
pub proof fn lemma_with_mode_runs(m: Seq<char>)
    ensures
        known_mode(chosen_mode(m)) || chosen_mode(m) == "diff"@,
{
}

/// The closing tags of a comma separated list of tag names: each name
/// with a '/' before it.
pub open spec fn closing_keys(s: Seq<char>) -> Seq<Seq<char>> {
    split_on(s, ',').map_values(|k: Seq<char>| seq!['/'] + k)
}

/// The names of the modes differ from one another.
pub proof fn lemma_modes_distinct()
    ensures
        "help"@ != "checksum"@,
        "help"@ != "validate"@,
        "help"@ != "compare"@,
        "help"@ != "diff"@,
        "help"@ != "index"@,
        "checksum"@ != "validate"@,
        "checksum"@ != "compare"@,
        "checksum"@ != "diff"@,
        "checksum"@ != "index"@,
        "validate"@ != "compare"@,
        "validate"@ != "diff"@,
        "validate"@ != "index"@,
        "compare"@ != "diff"@,
        "compare"@ != "index"@,
        "diff"@ != "index"@,
{
    reveal_strlit("help");
    reveal_strlit("checksum");
    reveal_strlit("validate");
    reveal_strlit("compare");
    reveal_strlit("diff");
    reveal_strlit("index");
    assert("help"@[0] == 'h');
    assert("checksum"@[0] == 'c');
    assert("checksum"@[1] == 'h');
    assert("compare"@[1] == 'o');
    assert("validate"@[0] == 'v');
    assert("diff"@[0] == 'd');
    assert("index"@[0] == 'i');
}

/// What `run` asks its caller to do.
pub enum RunAction {
    /// Print the usage text.
    PrintUsage,
    /// Write the diff files of the two inputs.
    WriteDiffFiles,
    /// Nothing more.
    Nothing,
}

impl Default for Config {
    fn default() -> (r: Config)
        ensures
            r.mode@ == Seq::<char>::empty(),
            r.input_filename1@ == Seq::<char>::empty(),
            r.input_filename2@ == Seq::<char>::empty(),
            r.xml_keys@ == Seq::<String>::empty(),
            r.chunk_delimiter@ == Seq::<char>::empty(),
            r.chunk_size == 0,
            r.concurrency == 0,
            r.bind_address@ == Seq::<char>::empty(),
            r.verbosity == 0,
            !r.use_index_files,
    {
        Config {
            mode: String::new(),
            input_filename1: String::new(),
            input_filename2: String::new(),
            xml_keys: Vec::new(),
            chunk_delimiter: String::new(),
            chunk_size: 0,
            concurrency: 0,
            bind_address: String::new(),
            verbosity: 0,
            use_index_files: false,
        }
    }
}

impl Config {
    /// Sets the mode: "help", "checksum", "validate" and "compare" are
    /// kept, anything else selects "diff".
    pub fn with_mode(self, mode: String) -> (r: Config)
        ensures
            r.mode@ == chosen_mode(mode@),
            r == (Config { mode: r.mode, ..self }),
    {
        proof {
            lemma_modes_distinct();
        }
        let mut s = self;
        if same_text(mode.as_str(), "help") || same_text(mode.as_str(), "checksum")
            || same_text(mode.as_str(), "validate") || same_text(mode.as_str(), "compare") {
            s.mode = mode;
        } else {
            s.mode = text("diff");
        }
        s
    }

    /// Sets the first input file if it is unset, else the second if it is
    /// unset; an empty name changes nothing.
    pub fn with_file(self, input: String) -> (r: Config)
        ensures
            input@.len() == 0 ==> r == self,
            input@.len() > 0 && self.input_filename1@.len() == 0 ==> r == (Config {
                input_filename1: input,
                ..self
            }),
            input@.len() > 0 && self.input_filename1@.len() > 0 && self.input_filename2@.len()
                == 0 ==> r == (Config { input_filename2: input, ..self }),
            input@.len() > 0 && self.input_filename1@.len() > 0 && self.input_filename2@.len() > 0
                ==> r == self,
    {
        let mut s = self;
        if input.as_str().is_empty() {
            return s;
        }
        if s.input_filename1.as_str().is_empty() {
            s.input_filename1 = input;
        } else if s.input_filename2.as_str().is_empty() {
            s.input_filename2 = input;
        }
        s
    }

    /// Sets the key fields from a comma separated list of tag names; each
    /// is stored as the closing tag it is recognised by ("/" and the name).
    /// An empty list changes nothing.
    pub fn with_xml_keys(self, input: String) -> (r: Config)
        ensures
            input@.len() == 0 ==> r == self,
            input@.len() > 0 ==> texts(r.xml_keys@) == closing_keys(input@),
            input@.len() > 0 ==> r == (Config { xml_keys: r.xml_keys, ..self }),
    {
        let mut s = self;
        if input.as_str().is_empty() {
            return s;
        }
        let fields = split_text(input.as_str(), ',');
        let mut keys: Vec<String> = Vec::new();
        for i in 0..fields.len()
            invariant
                texts(fields@) == split_on(input@, ','),
                texts(keys@) =~= texts(fields@).take(i as int).map_values(
                    |k: Seq<char>| seq!['/'] + k,
                ),
        {
            let key = joined("/", fields[i].as_str());
            proof {
                reveal_strlit("/");
                assert(key@ =~= seq!['/'] + fields@[i as int]@);
                assert(texts(fields@).take(i + 1) =~= texts(fields@).take(i as int).push(
                    fields@[i as int]@,
                ));
            }
            let ghost prev = keys@;
            keys.push(key);
            proof {
                assert(texts(keys@) =~= texts(prev).push(key@));
                assert(texts(fields@).take(i + 1).map_values(|k: Seq<char>| seq!['/'] + k)
                    =~= texts(fields@).take(i as int).map_values(|k: Seq<char>| seq!['/'] + k).push(
                    seq!['/'] + fields@[i as int]@,
                ));
            }
        }
        proof {
            assert(texts(fields@).take(fields@.len() as int) =~= texts(fields@));
        }
        s.xml_keys = keys;
        s
    }

    /// Sets the tag whose elements are the chunks of the XML.
    pub fn with_chunk_delimiter(self, input: String) -> (r: Config)
        ensures
            r == (Config { chunk_delimiter: input, ..self }),
    {
        let mut s = self;
        s.chunk_delimiter = input;
        s
    }

    /// Sets the read size, given in KiB.
    pub fn with_chunk_size(self, input: usize) -> (r: Config)
        requires
            input * 1024 <= usize::MAX,
        ensures
            r == (Config { chunk_size: (input * 1024) as usize, ..self }),
    {
        let mut s = self;
        s.chunk_size = input * 1024;
        s
    }

    /// Sets the number of worker threads.
    pub fn with_concurrency(self, input: i8) -> (r: Config)
        ensures
            r == (Config { concurrency: input, ..self }),
    {
        let mut s = self;
        s.concurrency = input;
        s
    }

    /// Sets the address that the broker binds to; an empty one changes nothing.
    pub fn with_bind_address(self, input: String) -> (r: Config)
        ensures
            input@.len() == 0 ==> r == self,
            input@.len() > 0 ==> r == (Config { bind_address: input, ..self }),
    {
        let mut s = self;
        if !input.as_str().is_empty() {
            s.bind_address = input;
        }
        s
    }

    /// Sets the verbosity level.
    pub fn with_verbosity(self, input: i8) -> (r: Config)
        ensures
            r == (Config { verbosity: input, ..self }),
    {
        let mut s = self;
        s.verbosity = input;
        s
    }

    /// Sets whether index files are used.
    pub fn with_use_index_files(self, input: bool) -> (r: Config)
        ensures
            r == (Config { use_index_files: input, ..self }),
    {
        let mut s = self;
        s.use_index_files = input;
        s
    }

    /// Checks the settings for the mode. The modes "help", "checksum",
    /// "validate", "compare" and "diff" need nothing; "index" needs a chunk
    /// delimiter, key fields and two input files that exist (whether they
    /// exist is given by the caller); any other mode becomes "diff".
    pub fn build(self, file1_exists: bool, file2_exists: bool) -> (r: Result<Config, String>)
        ensures
            known_mode(self.mode@) || self.mode@ == "diff"@ ==> r == Ok::<Config, String>(self),
            self.mode@ == "index"@ ==> {
                if self.chunk_delimiter@.len() == 0 {
                    r matches Err(e) && e@ == "Missing XML Chunk delimiter"@
                } else if self.xml_keys@.len() == 0 {
                    r matches Err(e) && e@ == "Missing xml key fields"@
                } else if !file1_exists {
                    r matches Err(e) && e@ == "Input file '"@ + self.input_filename1@
                        + "' does not exist."@
                } else if !file2_exists {
                    r matches Err(e) && e@ == "Input file '"@ + self.input_filename2@
                        + "' does not exist."@
                } else {
                    r == Ok::<Config, String>(self)
                }
            },
            !known_mode(self.mode@) && self.mode@ != "diff"@ && self.mode@ != "index"@ ==> (r
                matches Ok(c) && c.mode@ == "diff"@ && c == (Config { mode: c.mode, ..self })),
    {
        proof {
            lemma_modes_distinct();
        }
        let m = self.mode.as_str();
        if same_text(m, "help") || same_text(m, "checksum") || same_text(m, "validate")
            || same_text(m, "compare") || same_text(m, "diff") {
            Ok(self)
        } else if same_text(m, "index") {
            if self.chunk_delimiter.as_str().is_empty() {
                return Err(text("Missing XML Chunk delimiter"));
            }
            if self.xml_keys.len() == 0 {
                return Err(text("Missing xml key fields"));
            }
            if !file1_exists {
                let e = joined("Input file '", self.input_filename1.as_str());
                return Err(joined(e.as_str(), "' does not exist."));
            }
            if !file2_exists {
                let e = joined("Input file '", self.input_filename2.as_str());
                return Err(joined(e.as_str(), "' does not exist."));
            }
            Ok(self)
        } else {
            let mut s = self;
            s.mode = text("diff");
            Ok(s)
        }
    }

    /// The default settings: mode "help", 32 KiB reads, four workers,
    /// binding to "ipc://test", verbosity 1, index files in use.
    pub fn new() -> (r: Config)
        ensures
            r.mode@ == "help"@,
            r.input_filename1@ == Seq::<char>::empty(),
            r.input_filename2@ == Seq::<char>::empty(),
            r.xml_keys@ == Seq::<String>::empty(),
            r.chunk_delimiter@ == Seq::<char>::empty(),
            r.chunk_size == 32 * 1024,
            r.concurrency == 4,
            r.bind_address@ == "ipc://test"@,
            r.verbosity == 1,
            r.use_index_files,
    {
        Config {
            xml_keys: Vec::new(),
            chunk_delimiter: String::new(),
            input_filename1: String::new(),
            input_filename2: String::new(),
            chunk_size: 32usize * 1024,
            mode: text("help"),
            concurrency: 4i8,
            bind_address: text("ipc://test"),
            verbosity: 1i8,
            use_index_files: true,
        }
    }

    /// What the mode asks for: usage for "help", "validate", "compare",
    /// and for "diff" with index files; the diff files for "checksum";
    /// nothing for "diff" without index files; any other mode is an error.
    pub fn run(self) -> (r: Result<RunAction, String>)
        ensures
            (self.mode@ == "help"@ || self.mode@ == "validate"@ || self.mode@ == "compare"@) ==> r
                == Ok::<RunAction, String>(RunAction::PrintUsage),
            self.mode@ == "checksum"@ ==> r == Ok::<RunAction, String>(RunAction::WriteDiffFiles),
            self.mode@ == "diff"@ ==> r == Ok::<RunAction, String>(
                if self.use_index_files {
                    RunAction::PrintUsage
                } else {
                    RunAction::Nothing
                },
            ),
            !known_mode(self.mode@) && self.mode@ != "diff"@ ==> (r matches Err(e) && e@
                == "Unknown operational mode"@),
    {
        proof {
            lemma_modes_distinct();
        }
        let m = self.mode.as_str();
        if same_text(m, "help") || same_text(m, "validate") || same_text(m, "compare") {
            Ok(RunAction::PrintUsage)
        } else if same_text(m, "checksum") {
            Ok(RunAction::WriteDiffFiles)
        } else if same_text(m, "diff") {
            if self.use_index_files {
                Ok(RunAction::PrintUsage)
            } else {
                Ok(RunAction::Nothing)
            }
        } else {
            Err(text("Unknown operational mode"))
        }
    }
}

} // verus!
