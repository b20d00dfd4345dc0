use vstd::prelude::*;

use crate::errors::CliplyError;

verus! {

/// What one registered flag looks like to a contract: its name, its help
/// text, and whether it takes a value.
pub type EntryView = (Seq<char>, Seq<char>, bool);

/// The invocation tokens as sequences of characters.
pub open spec fn tokens_view(argv: Seq<String>) -> Seq<Seq<char>> {
    argv.map_values(|s: String| s@)
}

/// The short spelling of a flag: one dash and the name's first character.
pub open spec fn short_form(n: Seq<char>) -> Seq<char> {
    if n.len() == 0 {
        seq!['-']
    } else {
        seq!['-', n[0]]
    }
}

/// The long spelling of a flag: two dashes and the whole name.
pub open spec fn long_form(n: Seq<char>) -> Seq<char> {
    seq!['-', '-'] + n
}

/// A flag counts as used when any of its three spellings is a token.
pub open spec fn flag_used(argv: Seq<Seq<char>>, n: Seq<char>) -> bool {
    argv.contains(short_form(n)) || argv.contains(long_form(n)) || argv.contains(n)
}

/// `i` is the position of the first occurrence of `t` in `argv`.
pub open spec fn is_first_index(argv: Seq<Seq<char>>, t: Seq<char>, i: int) -> bool {
    &&& 0 <= i < argv.len()
    &&& argv[i] == t
    &&& forall|j: int| 0 <= j < i ==> argv[j] != t
}

/// The position of the first occurrence of `t` in `argv` (meaningful when it occurs).
pub open spec fn first_index(argv: Seq<Seq<char>>, t: Seq<char>) -> int {
    choose|i: int| is_first_index(argv, t, i)
}

/// The message of the error returned when token `t` has no token after it.
pub open spec fn missing_data_message(t: Seq<char>) -> Seq<char> {
    "No data supplied to \""@ + t + "\"."@
}

/// The spelling of flag `n` that a value lookup goes by: the first of short,
/// long and bare spelling that occurs among the tokens.
pub open spec fn matched_token(argv: Seq<Seq<char>>, n: Seq<char>) -> Option<Seq<char>> {
    if argv.contains(short_form(n)) {
        Some(short_form(n))
    } else if argv.contains(long_form(n)) {
        Some(long_form(n))
    } else if argv.contains(n) {
        Some(n)
    } else {
        None
    }
}

/// The token that follows the first occurrence of `t`, or the missing-data
/// message when `t` first occurs as the last token.
pub open spec fn data_after(argv: Seq<Seq<char>>, t: Seq<char>) -> Result<Seq<char>, Seq<char>> {
    let i = first_index(argv, t);
    if i + 1 < argv.len() {
        Ok(argv[i + 1])
    } else {
        Err(missing_data_message(t))
    }
}

/// The outcome of a value lookup for flag `n`: empty when the flag takes no
/// value or is not used, else the token after the matched spelling.
pub open spec fn data_lookup(argv: Seq<Seq<char>>, n: Seq<char>, accepts: bool) -> Result<Seq<char>, Seq<char>> {
    if !accepts {
        Ok(Seq::empty())
    } else {
        match matched_token(argv, n) {
            Some(t) => data_after(argv, t),
            None => Ok(Seq::empty()),
        }
    }
}

/// A lookup result with strings and errors seen as their characters.
pub open spec fn result_view(r: Result<String, CliplyError>) -> Result<Seq<char>, Seq<char>> {
    match r {
        Ok(s) => Ok(s@),
        Err(e) => Err(e.details@),
    }
}

/// The version text: `<name> v.<version>`, a newline, then `by <author>.`.
pub open spec fn version_text(name: Seq<char>, version: Seq<char>, author: Seq<char>) -> Seq<char> {
    name + " v."@ + version + "\nby "@ + author + "."@
}

/// The help line of one registered flag: its three spellings, a `DATA`
/// column for a flag that takes a value, and its help text.
pub open spec fn flag_line(e: EntryView) -> Seq<char> {
    short_form(e.0) + " --"@ + e.0 + " "@ + e.0 + (if e.2 {
        " DATA  "@
    } else {
        "        "@
    }) + e.1
}

/// The built-in help line of the `help` flag.
pub open spec fn help_flag_line() -> Seq<char> {
    "-h --help help           displays this message"@
}

/// The built-in help line of the `version` flag.
pub open spec fn version_flag_line() -> Seq<char> {
    "-v --version version     displays app info"@
}

/// The help lines of the registered flags, in order.
pub open spec fn flag_lines(entries: Seq<EntryView>) -> Seq<Seq<char>> {
    entries.map_values(|e: EntryView| flag_line(e))
}

/// All help lines: one per registered flag, then `help`, then `version`.
pub open spec fn help_lines(entries: Seq<EntryView>) -> Seq<Seq<char>> {
    flag_lines(entries).push(help_flag_line()).push(version_flag_line())
}

/// Lines joined with a newline between each two.
pub open spec fn join_lines(lines: Seq<Seq<char>>) -> Seq<char>
    decreases lines.len(),
{
    if lines.len() == 0 {
        Seq::empty()
    } else if lines.len() == 1 {
        lines[0]
    } else {
        join_lines(lines.drop_last()) + "\n"@ + lines.last()
    }
}

/// Appending a line to joined lines adds a newline only after a line.
pub proof fn lemma_join_push(lines: Seq<Seq<char>>, x: Seq<char>)
    ensures
        join_lines(lines.push(x)) == if lines.len() == 0 {
            x
        } else {
            join_lines(lines) + "\n"@ + x
        },
{
    assert(lines.push(x).drop_last() =~= lines);
}

/// Only one position can be the first occurrence of a token.
pub proof fn lemma_first_index_unique(argv: Seq<Seq<char>>, t: Seq<char>, i: int)
    requires
        is_first_index(argv, t, i),
    ensures
        first_index(argv, t) == i,
{
    let k = first_index(argv, t);
    assert(is_first_index(argv, t, k));
    if k < i {
        assert(argv[k] != t);
    } else if i < k {
        assert(argv[i] != t);
    }
}

/// Builds `-` followed by the first character of `n`.
fn short_token(n: &str) -> (r: String)
    ensures
        r@ == short_form(n@),
{
    let head: &str = if n.unicode_len() == 0 {
        n
    } else {
        n.substring_char(0, 1)
    };
    let dash: String = "-".to_owned();
    proof {
        reveal_strlit("-");
    }
    let r = dash.concat(head);
    assert(r@ =~= short_form(n@));
    r
}

/// Builds `--` followed by `n`.
fn long_token(n: &str) -> (r: String)
    ensures
        r@ == long_form(n@),
{
    let dashes: String = "--".to_owned();
    proof {
        reveal_strlit("--");
    }
    let r = dashes.concat(n);
    assert(r@ =~= long_form(n@));
    r
}

/// Finds the first position of `t` among the tokens.
fn index_of_token(argv: &Vec<String>, t: &String) -> (r: Option<usize>)
    ensures
        match r {
            Some(i) => is_first_index(tokens_view(argv@), t@, i as int),
            None => !tokens_view(argv@).contains(t@),
        },
{
    let ghost view = tokens_view(argv@);
    let mut i: usize = 0;
    while i < argv.len()
        invariant
            i <= argv.len(),
            view == tokens_view(argv@),
            forall|j: int| 0 <= j < i ==> view[j] != t@,
        decreases argv.len() - i,
    {
        if argv[i] == *t {
            return Some(i);
        }
        i = i + 1;
    }
    proof {
        assert forall|j: int| 0 <= j < view.len() implies view[j] != t@ by {}
    }
    None
}

/// Tells whether `t` is one of the tokens.
fn has_token(argv: &Vec<String>, t: &String) -> (r: bool)
    ensures
        r == tokens_view(argv@).contains(t@),
{
    match index_of_token(argv, t) {
        Some(i) => {
            assert(tokens_view(argv@)[i as int] == t@);
            true
        },
        None => false,
    }
}

/// Builds the message of the error for token `t` with nothing after it.
fn missing_data_text(t: &String) -> (r: String)
    ensures
        r@ == missing_data_message(t@),
{
    let mut m: String = "No data supplied to \"".to_owned();
    m.append(t.as_str());
    m.append("\".");
    m
}

/// Reads the token after the first occurrence of `t`, which is at `i`.
fn data_following(argv: &Vec<String>, i: usize, t: &String) -> (r: Result<String, CliplyError>)
    requires
        is_first_index(tokens_view(argv@), t@, i as int),
    ensures
        result_view(r) == data_after(tokens_view(argv@), t@),
{
    proof {
        lemma_first_index_unique(tokens_view(argv@), t@, i as int);
        assert(tokens_view(argv@).len() == argv@.len());
    }
    let len: usize = argv.len();
    if i + 1 < len {
        Ok(argv[i + 1].clone())
    } else {
        let m: String = missing_data_text(t);
        Err(CliplyError::new(m.as_str()))
    }
}

/// Builds the help line of flag `name` with record `data`.
fn flag_line_text(name: &String, data: &ArgData) -> (r: String)
    ensures
        r@ == flag_line((name@, data.help@, data.data)),
{
    let mut r: String = short_token(name.as_str());
    r.append(" --");
    r.append(name.as_str());
    r.append(" ");
    r.append(name.as_str());
    if data.data {
        r.append(" DATA  ");
    } else {
        r.append("        ");
    }
    r.append(data.help.as_str());
    r
}

/// Help text of a flag and whether the flag takes a value.
#[derive(Clone, Debug, PartialEq, Eq)]
pub struct ArgData {
    pub help: String,
    pub data: bool,
}

impl ArgData {
    /// Creates the record of a flag with help text `help` that takes a value
    /// when `data` is true.
    pub fn new(help: &str, data: &bool) -> (r: ArgData)
        ensures
            r.help@ == help@,
            r.data == *data,
    {
        ArgData { help: help.to_owned(), data: *data }
    }
}

/// A command-line application: its name, version and author, and the flags
/// registered with it, in the order of their first registration.
#[derive(Clone, Debug, PartialEq, Eq)]
pub struct App {
    pub name: String,
    pub version: String,
    pub author: String,
    pub args: Vec<(String, ArgData)>,
}

impl App {
    /// The registered flags, in registration order.
    pub open spec fn entries(&self) -> Seq<EntryView> {
        self.args@.map_values(|e: (String, ArgData)| (e.0@, e.1.help@, e.1.data))
    }

    /// Flag `n` is registered.
    pub open spec fn is_registered(&self, n: Seq<char>) -> bool {
        exists|i: int| 0 <= i < self.entries().len() && self.entries()[i].0 == n
    }

    /// Flag `n` is registered as taking a value.
    pub open spec fn accepts_data(&self, n: Seq<char>) -> bool {
        exists|i: int|
            0 <= i < self.entries().len() && self.entries()[i].0 == n && self.entries()[i].2 && (
            forall|j: int| 0 <= j < i ==> self.entries()[j].0 != n)
    }

    /// Flag names are non-empty and each is registered once.
    pub open spec fn wf(&self) -> bool {
        &&& forall|i: int| 0 <= i < self.entries().len() ==> self.entries()[i].0.len() > 0
        &&& forall|i: int, j: int|
            0 <= i < j < self.entries().len() ==> self.entries()[i].0 != self.entries()[j].0
    }

    /// The outcome of a value lookup of flag `n` against the tokens `argv`.
    pub open spec fn arg_data(&self, argv: Seq<Seq<char>>, n: Seq<char>) -> Result<Seq<char>, Seq<char>> {
        data_lookup(argv, n, self.accepts_data(n))
    }

    /// Creates an application with no registered flags.
    pub fn new(name: &str, version: &str, author: &str) -> (r: App)
        ensures
            r.name@ == name@,
            r.version@ == version@,
            r.author@ == author@,
            r.entries() == Seq::<EntryView>::empty(),
            r.wf(),
    {
        let args: Vec<(String, ArgData)> = Vec::new();
        let r = App {
            name: name.to_owned(),
            version: version.to_owned(),
            author: author.to_owned(),
            args,
        };
        assert(r.entries() =~= Seq::<EntryView>::empty());
        r
    }

    /// Finds the position of flag `name` in the registry.
    fn find_arg(&self, name: &String) -> (r: Option<usize>)
        ensures
            match r {
                Some(i) => i < self.entries().len() && self.entries()[i as int].0 == name@
                    && forall|j: int| 0 <= j < i ==> self.entries()[j].0 != name@,
                None => forall|j: int| 0 <= j < self.entries().len() ==> self.entries()[j].0 != name@,
            },
    {
        let mut i: usize = 0;
        while i < self.args.len()
            invariant
                i <= self.args.len(),
                forall|j: int| 0 <= j < i ==> self.entries()[j].0 != name@,
            decreases self.args.len() - i,
        {
            if self.args[i].0 == *name {
                return Some(i);
            }
            i = i + 1;
        }
        None
    }

    /// Registers flag `name` with help text `help`; it takes a value when
    /// `data` is true. A flag registered again keeps its place and takes the
    /// new help text and kind.
    pub fn add_arg(&mut self, name: &str, help: &str, data: &bool)
        requires
            old(self).wf(),
            name@.len() > 0,
        ensures
            final(self).wf(),
            final(self).name == old(self).name,
            final(self).version == old(self).version,
            final(self).author == old(self).author,
            old(self).is_registered(name@) ==> final(self).entries().len() == old(self).entries().len(),
            !old(self).is_registered(name@) ==> final(self).entries() == old(self).entries().push(
                (name@, help@, *data),
            ),
            forall|i: int|
                0 <= i < old(self).entries().len() ==> final(self).entries()[i] == if old(
                    self,
                ).entries()[i].0 == name@ {
                    (name@, help@, *data)
                } else {
                    old(self).entries()[i]
                },
    {
        let key: String = name.to_owned();
        let entry: (String, ArgData) = (name.to_owned(), ArgData::new(help, data));
        match self.find_arg(&key) {
            Some(i) => {
                let ghost before = self.entries();
                self.args.set(i, entry);
                assert(self.entries() =~= before.update(i as int, (name@, help@, *data)));
                assert forall|j: int| 0 <= j < before.len() && j != i implies before[j].0 != name@ by {
                    assert(before[i as int].0 == name@);
                }
            },
            None => {
                let ghost before = self.entries();
                self.args.push(entry);
                assert(self.entries() =~= before.push((name@, help@, *data)));
            },
        }
    }

    /// Tells whether flag `name` is registered as taking a value.
    fn takes_data(&self, name: &String) -> (r: bool)
        ensures
            r == self.accepts_data(name@),
    {
        match self.find_arg(name) {
            Some(i) => {
                let r = self.args[i].1.data;
                proof {
                    if !r {
                        assert forall|k: int|
                            0 <= k < self.entries().len() && self.entries()[k].0 == name@
                                && self.entries()[k].2 implies exists|j: int|
                            0 <= j < k && self.entries()[j].0 == name@ by {
                            if k > i {
                                assert(0 <= i < k && self.entries()[i as int].0 == name@);
                            }
                        }
                    }
                }
                r
            },
            None => false,
        }
    }

    /// Reads the value given to flag `name`: the token after the first
    /// occurrence of its first spelling that was given, trying `-` and its
    /// first character, then `--` and its name, then its bare name. A flag
    /// that was not given, is not registered, or takes no value has the
    /// empty value; a spelling given as the last token is an error.
    pub fn get_arg_data(&self, name: &str, argv: &Vec<String>) -> (r: Result<String, CliplyError>)
        ensures
            result_view(r) == self.arg_data(tokens_view(argv@), name@),
    {
        let ghost view = tokens_view(argv@);
        let key: String = name.to_owned();
        if !self.takes_data(&key) {
            return Ok(String::new());
        }
        let short: String = short_token(name);
        match index_of_token(argv, &short) {
            Some(i) => {
                assert(view[i as int] == short@);
                return data_following(argv, i, &short);
            },
            None => {},
        }
        let long: String = long_token(name);
        match index_of_token(argv, &long) {
            Some(i) => {
                assert(view[i as int] == long@);
                return data_following(argv, i, &long);
            },
            None => {},
        }
        match index_of_token(argv, &key) {
            Some(i) => {
                assert(view[i as int] == key@);
                data_following(argv, i, &key)
            },
            None => Ok(String::new()),
        }
    }

    /// Tells whether flag `arg` was given: as `-` and its first character,
    /// as `--` and its name, or as its bare name. The flag need not be
    /// registered.
    pub fn arg_was_used(&self, arg: &str, argv: &Vec<String>) -> (r: bool)
        ensures
            r == flag_used(tokens_view(argv@), arg@),
    {
        let short: String = short_token(arg);
        let long: String = long_token(arg);
        let bare: String = arg.to_owned();
        has_token(argv, &short) || has_token(argv, &long) || has_token(argv, &bare)
    }

    /// Tells whether version information was asked for.
    pub fn version_is(&self, argv: &Vec<String>) -> (r: bool)
        ensures
            r == flag_used(tokens_view(argv@), "version"@),
    {
        self.arg_was_used("version", argv)
    }

    /// Tells whether usage information was asked for.
    pub fn help_is(&self, argv: &Vec<String>) -> (r: bool)
        ensures
            r == flag_used(tokens_view(argv@), "help"@),
    {
        self.arg_was_used("help", argv)
    }

    /// Returns the version text: `<name> v.<version>`, a newline, and
    /// `by <author>.`.
    pub fn version_info(&self) -> (r: String)
        ensures
            r@ == version_text(self.name@, self.version@, self.author@),
    {
        let mut r: String = self.name.clone();
        r.append(" v.");
        r.append(self.version.as_str());
        r.append("\nby ");
        r.append(self.author.as_str());
        r.append(".");
        r
    }

    /// Returns the usage text: one line per registered flag in registration
    /// order, then the lines of the built-in `help` and `version` flags,
    /// joined with newlines.
    pub fn help_info(&self) -> (r: String)
        ensures
            r@ == join_lines(help_lines(self.entries())),
    {
        let ghost entries = self.entries();
        let mut out: String = String::new();
        let mut i: usize = 0;
        while i < self.args.len()
            invariant
                i <= self.args.len(),
                entries == self.entries(),
                out@ == join_lines(flag_lines(entries.take(i as int))),
            decreases self.args.len() - i,
        {
            let line: String = flag_line_text(&self.args[i].0, &self.args[i].1);
            proof {
                assert(flag_lines(entries.take(i + 1)) =~= flag_lines(entries.take(i as int)).push(
                    flag_line(entries[i as int]),
                ));
                lemma_join_push(flag_lines(entries.take(i as int)), line@);
            }
            if i > 0 {
                out.append("\n");
            }
            out.append(line.as_str());
            i = i + 1;
        }
        let ghost flags = flag_lines(entries);
        assert(entries.take(i as int) =~= entries);
        proof {
            lemma_join_push(flags, help_flag_line());
            lemma_join_push(flags.push(help_flag_line()), version_flag_line());
        }
        if self.args.len() > 0 {
            out.append("\n");
        }
        out.append("-h --help help           displays this message");
        out.append("\n");
        out.append("-v --version version     displays app info");
        out
    }
}

} // verus!
