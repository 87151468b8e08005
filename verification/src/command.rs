//! The command template: a tokenised command line, the placeholder it
//! carries, and the arguments that one run of it gets.

use crate::header::{header_line, header_text, opt_banner, Banner};
use crate::text::{
    chars_of, contains_chars, has_substring, is_occurrence, join_spaced, join_with_spaces, opt_text,
    push_copies, texts,
};
use vstd::prelude::*;

verus! {

/// Which substitution a command template asks for.
#[derive(Copy, Clone, Debug, PartialEq, Eq, Structural)]
pub enum Case {
    /// No token carries a placeholder.
    NoPath,
    /// A token holds `{}`: one path, the current one, takes its place.
    OnePath,
    /// A token holds a lone `%`: every watched path takes its place, each
    /// as an argument of its own.
    AllPaths,
    /// A token holds `%%`: all watched paths, joined by single spaces into
    /// one argument, take its place.
    AllPathsQuoted,
}

/// The marker of `Case::OnePath`.
pub open spec fn one_path_marker() -> Seq<char> {
    seq!['{', '}']
}

/// The marker of `Case::AllPathsQuoted`.
pub open spec fn all_paths_quoted_marker() -> Seq<char> {
    seq!['%', '%']
}

/// The marker of `Case::AllPaths`.
pub open spec fn all_paths_marker() -> Seq<char> {
    seq!['%']
}

/// The placeholder that a single token carries: `{}` goes before `%%`,
/// and `%%` before `%`.
pub open spec fn marker(token: Seq<char>) -> Option<Case> {
    if has_substring(token, one_path_marker()) {
        Some(Case::OnePath)
    } else if has_substring(token, all_paths_quoted_marker()) {
        Some(Case::AllPathsQuoted)
    } else if has_substring(token, all_paths_marker()) {
        Some(Case::AllPaths)
    } else {
        None
    }
}

/// Whether no token among the first `end` of `tokens` carries a placeholder.
pub open spec fn unmarked_before(tokens: Seq<Seq<char>>, end: int) -> bool {
    forall|j: int| 0 <= j < end && j < tokens.len() ==> (#[trigger] marker(tokens[j])) is None
}

/// Whether `case` at `index` is what the scan of `tokens` finds: the marker
/// of the first token that carries one, or `NoPath` at 0 where none does.
pub open spec fn is_case_of(tokens: Seq<Seq<char>>, case: Case, index: int) -> bool {
    if case == Case::NoPath {
        index == 0 && unmarked_before(tokens, tokens.len() as int)
    } else {
        &&& 0 <= index < tokens.len()
        &&& marker(tokens[index]) == Some(case)
        &&& unmarked_before(tokens, index)
    }
}

/// The placeholder carried by one token.
pub fn marker_of(token: &str) -> (found: Option<Case>)
    ensures
        found == marker(token@),
{
    let text = chars_of(token);
    let braces: Vec<char> = vec!['{', '}'];
    let doubled: Vec<char> = vec!['%', '%'];
    let single: Vec<char> = vec!['%'];
    assert(braces@ =~= one_path_marker());
    assert(doubled@ =~= all_paths_quoted_marker());
    assert(single@ =~= all_paths_marker());
    if contains_chars(&text, &braces) {
        Some(Case::OnePath)
    } else if contains_chars(&text, &doubled) {
        Some(Case::AllPathsQuoted)
    } else if contains_chars(&text, &single) {
        Some(Case::AllPaths)
    } else {
        None
    }
}

/// Scans the tokens in order and returns the placeholder of the first token
/// that carries one, with that token's index; `NoPath` and 0 where no token
/// carries any.
pub fn find_case(commands: &[String]) -> (found: (Case, usize))
    ensures
        is_case_of(texts(commands@), found.0, found.1 as int),
{
    let mut i: usize = 0;
    while i < commands.len()
        invariant
            i <= commands.len(),
            unmarked_before(texts(commands@), i as int),
        decreases commands.len() - i,
    {
        match marker_of(commands[i].as_str()) {
            Some(case) => {
                return (case, i);
            },
            None => {},
        }
        i += 1;
    }
    (Case::NoPath, 0)
}

/// Why a command line gives no template.
#[derive(Copy, Clone, Debug, PartialEq, Eq, Structural)]
pub enum ParseError {
    /// The line cannot be split into words: it ends inside a quotation or
    /// right after a backslash.
    Invalid,
    /// The line holds no word at all.
    Empty,
}

impl ParseError {
    /// The line that tells the user about the error.
    pub fn message(&self) -> (line: String)
        ensures
            line@ == match *self {
                ParseError::Invalid => "Invalid command, cannot parse"@,
                ParseError::Empty => "Empty command"@,
            },
    {
        match self {
            ParseError::Invalid => String::from_str("Invalid command, cannot parse"),
            ParseError::Empty => String::from_str("Empty command"),
        }
    }
}

/// Why a template cannot be turned into a process to start.
#[derive(Copy, Clone, Debug, PartialEq, Eq, Structural)]
pub enum InvariantViolation {
    /// The template substitutes the current path and none was given.
    MissingCurrentPath,
    /// The substitution left no word to serve as the program.
    NoProgram,
    /// The run starts on a cleared screen and no banner was given for its
    /// header.
    MissingBanner,
}

impl InvariantViolation {
    /// The line that tells the user about the error.
    pub fn message(&self) -> (line: String)
        ensures
            line@ == match *self {
                InvariantViolation::MissingCurrentPath => "No current path for the {} placeholder"@,
                InvariantViolation::NoProgram => "No program left to run"@,
                InvariantViolation::MissingBanner => "No banner for the header of a clean run"@,
            },
    {
        match self {
            InvariantViolation::MissingCurrentPath => String::from_str(
                "No current path for the {} placeholder",
            ),
            InvariantViolation::NoProgram => String::from_str("No program left to run"),
            InvariantViolation::MissingBanner => String::from_str(
                "No banner for the header of a clean run",
            ),
        }
    }
}

/// A command template as contracts see it.
pub struct Template {
    /// The words of the command line, in order.
    pub tokens: Seq<Seq<char>>,
    /// The placeholder that the words carry.
    pub case: Case,
    /// The index of the word that carries it; 0 where `case` is `NoPath`.
    pub placeholder_index: int,
}

impl Template {
    /// A template has at least one word, and its placeholder is the one
    /// that the scan of its words finds.
    pub open spec fn wf(self) -> bool {
        &&& self.tokens.len() > 0
        &&& is_case_of(self.tokens, self.case, self.placeholder_index)
    }

    /// What takes the place of the word that carries the placeholder.
    pub open spec fn substitution(self, paths: Seq<Seq<char>>, current: Option<Seq<char>>) -> Seq<
        Seq<char>,
    > {
        match self.case {
            Case::NoPath => Seq::empty(),
            Case::OnePath => match current {
                Some(path) => seq![path],
                None => Seq::empty(),
            },
            Case::AllPaths => paths,
            Case::AllPathsQuoted => seq![join_spaced(paths)],
        }
    }

    /// Whether the template can be resolved with this current path: only
    /// `OnePath` needs one.
    pub open spec fn resolvable(self, current: Option<Seq<char>>) -> bool {
        self.case == Case::OnePath ==> current is Some
    }

    /// The words of one run: the template's words, with the substitution in
    /// the place of the word that carries the placeholder.
    pub open spec fn resolved(self, paths: Seq<Seq<char>>, current: Option<Seq<char>>) -> Seq<
        Seq<char>,
    > {
        if self.case == Case::NoPath {
            self.tokens
        } else {
            self.tokens.subrange(0, self.placeholder_index) + self.substitution(paths, current)
                + self.tokens.subrange(self.placeholder_index + 1, self.tokens.len() as int)
        }
    }
}

/// The banner that the header of a run shows: the one given where the run is
/// clean, and none where it is not.
pub open spec fn shown(clean: bool, banner: Option<Banner>) -> Option<Banner> {
    if clean {
        banner
    } else {
        None
    }
}

/// One run of the command, ready to be started.
#[derive(Clone, Debug)]
pub struct Invocation {
    /// The program to start.
    pub program: String,
    /// Its arguments, in order.
    pub args: Vec<String>,
    /// Whether the screen is cleared before the header is printed; where it
    /// is not, an empty line goes before the header.
    pub clean: bool,
    /// The header line, without its line end.
    pub header: String,
}

impl Template {
    /// Why no run can be laid out, if anything stands against it.
    pub open spec fn plan_error(self, paths: Seq<Seq<char>>, current: Option<Seq<char>>) -> Option<
        InvariantViolation,
    > {
        if !self.resolvable(current) {
            Some(InvariantViolation::MissingCurrentPath)
        } else if self.resolved(paths, current).len() == 0 {
            Some(InvariantViolation::NoProgram)
        } else {
            None
        }
    }

    /// Why no run can be made, if anything stands against it: what stands
    /// against laying it out, or a clean run that comes without a banner.
    pub open spec fn run_error(
        self,
        paths: Seq<Seq<char>>,
        current: Option<Seq<char>>,
        clean: bool,
        banner: Option<Banner>,
    ) -> Option<InvariantViolation> {
        match self.plan_error(paths, current) {
            Some(error) => Some(error),
            None => if clean && banner is None {
                Some(InvariantViolation::MissingBanner)
            } else {
                None
            },
        }
    }

    /// Whether `run` is the run of this template for these paths: its
    /// program is the first resolved word, its arguments are the others,
    /// it is clean exactly where it has a banner, and its header shows the
    /// resolved words and the banner.
    pub open spec fn is_plan(
        self,
        run: Invocation,
        paths: Seq<Seq<char>>,
        current: Option<Seq<char>>,
        banner: Option<Banner>,
    ) -> bool {
        let words = self.resolved(paths, current);
        &&& words.len() > 0
        &&& run.program@ == words[0]
        &&& texts(run.args@) == words.subrange(1, words.len() as int)
        &&& run.clean == banner is Some
        &&& run.header@ == header_text(words, banner)
    }
}

/// A command line split into words, with the placeholder found in them.
#[derive(Debug)]
pub struct Command {
    case: Case,
    command: Vec<String>,
    placeholder_index: usize,
}

impl View for Command {
    type V = Template;

    closed spec fn view(&self) -> Template {
        Template {
            tokens: texts(self.command@),
            case: self.case,
            placeholder_index: self.placeholder_index as int,
        }
    }
}

impl Clone for Command {
    fn clone(&self) -> (copy: Self)
        ensures
            copy@ == self@,
    {
        proof {
            use_type_invariant(self);
        }
        let mut command: Vec<String> = Vec::new();
        assert(texts(command@) =~= Seq::<Seq<char>>::empty());
        push_copies(&mut command, self.command.as_slice(), 0, self.command.len());
        assert(texts(command@) =~= texts(self.command@));
        Command { case: self.case, command, placeholder_index: self.placeholder_index }
    }
}

/// The words that `shlex::split` makes of a command line, or `None` where it
/// rejects the line.
pub uninterp spec fn shlex_split(line: Seq<char>) -> Option<Seq<Seq<char>>>;

/// The words of a command line, or why it has none to run.
pub open spec fn parsed(line: Seq<char>) -> Result<Seq<Seq<char>>, ParseError> {
    match shlex_split(line) {
        None => Err(ParseError::Invalid),
        Some(words) => if words.len() == 0 {
            Err(ParseError::Empty)
        } else {
            Ok(words)
        },
    }
}

/// Splits a command line into words by the rules of a POSIX shell (quotes,
/// backslashes, comments), through `shlex::split`. The result is that of
/// `shlex::split` on the same text: `None` where the line ends inside a
/// quotation or right after a backslash.
#[verifier::external_body]
fn split_words(line: &str) -> (words: Option<Vec<String>>)
    ensures
        shlex_split(line@) == match words {
            Some(w) => Some(texts(w@)),
            None => None,
        },
{
    shlex::split(line)
}

impl Command {
    /// Holds of every command: it has a word, and its placeholder is the
    /// one found in its words.
    #[verifier::type_invariant]
    pub open spec fn well_formed(&self) -> bool {
        self@.wf()
    }

    /// Makes a template of words that are already split. Fails with
    /// `ParseError::Empty` exactly where there is no word.
    pub fn from_tokens(tokens: Vec<String>) -> (made: Result<Command, ParseError>)
        ensures
            match made {
                Ok(command) => tokens@.len() > 0 && command@.tokens == texts(tokens@)
                    && command@.wf(),
                Err(error) => tokens@.len() == 0 && error == ParseError::Empty,
            },
    {
        if tokens.len() == 0 {
            return Err(ParseError::Empty);
        }
        let (case, placeholder_index) = find_case(tokens.as_slice());
        Ok(Command { case, command: tokens, placeholder_index })
    }

    /// Splits a command line into words and makes a template of them. Fails
    /// with `ParseError::Invalid` exactly where the line cannot be split,
    /// and with `ParseError::Empty` exactly where it splits into no word.
    pub fn new(command: String) -> (made: Result<Command, ParseError>)
        ensures
            match made {
                Ok(c) => parsed(command@) == Ok::<Seq<Seq<char>>, ParseError>(c@.tokens)
                    && c@.wf(),
                Err(error) => parsed(command@) == Err::<Seq<Seq<char>>, ParseError>(error),
            },
    {
        match split_words(command.as_str()) {
            None => Err(ParseError::Invalid),
            Some(words) => Command::from_tokens(words),
        }
    }

    /// The placeholder that the command carries.
    pub fn case(&self) -> (case: Case)
        ensures
            case == self@.case,
    {
        self.case
    }

    /// The words of the command line, in order.
    pub fn tokens(&self) -> (tokens: &Vec<String>)
        ensures
            texts(tokens@) == self@.tokens,
    {
        &self.command
    }

    /// The index of the word that carries the placeholder; 0 where there
    /// is none.
    pub fn placeholder_index(&self) -> (index: usize)
        ensures
            index == self@.placeholder_index,
    {
        self.placeholder_index
    }

    /// The arguments of one run, program first: the words before the
    /// placeholder, what the placeholder stands for, and the words after it.
    /// Fails exactly where the template substitutes the current path and
    /// `current` is `None`.
    pub fn resolve(&self, paths: &[String], current: Option<&str>) -> (args: Result<
        Vec<String>,
        InvariantViolation,
    >)
        ensures
            match args {
                Ok(words) => self@.resolvable(opt_text(current)) && texts(words@)
                    == self@.resolved(texts(paths@), opt_text(current)),
                Err(error) => !self@.resolvable(opt_text(current)) && error
                    == InvariantViolation::MissingCurrentPath,
            },
    {
        proof {
            use_type_invariant(self);
        }
        let mut words: Vec<String> = Vec::new();
        assert(texts(words@) =~= Seq::<Seq<char>>::empty());
        if self.case == Case::NoPath {
            push_copies(&mut words, self.command.as_slice(), 0, self.command.len());
            assert(texts(words@) =~= self@.tokens);
            return Ok(words);
        }
        assert(self.placeholder_index < self.command.len());
        push_copies(&mut words, self.command.as_slice(), 0, self.placeholder_index);
        let ghost head = texts(words@);
        assert(head =~= self@.tokens.subrange(0, self.placeholder_index as int));
        match self.case {
            Case::NoPath => {},
            Case::OnePath => {
                match current {
                    Some(path) => {
                        words.push(String::from_str(path));
                        assert(texts(words@) =~= head + seq![path@]);
                    },
                    None => {
                        return Err(InvariantViolation::MissingCurrentPath);
                    },
                }
            },
            Case::AllPaths => {
                push_copies(&mut words, paths, 0, paths.len());
                assert(texts(paths@).subrange(0, paths.len() as int) =~= texts(paths@));
            },
            Case::AllPathsQuoted => {
                words.push(join_with_spaces(paths));
                assert(texts(words@) =~= head + seq![join_spaced(texts(paths@))]);
            },
        }
        assert(texts(words@) == head + self@.substitution(texts(paths@), opt_text(current)));
        push_copies(
            &mut words,
            self.command.as_slice(),
            self.placeholder_index + 1,
            self.command.len(),
        );
        Ok(words)
    }

    /// Lays out one run from the words that `resolve` gives: the first is
    /// the program, the rest are its arguments, and the header shows them
    /// all. With a banner the run starts on a cleared screen and the header
    /// carries the banner on the right; without one the run is appended
    /// below what the terminal shows. Fails as `resolve` does, and with
    /// `NoProgram` exactly where `resolve` gives no word at all.
    pub fn plan(&self, paths: &[String], current: Option<&str>, banner: Option<&Banner>) -> (planned:
        Result<Invocation, InvariantViolation>)
        ensures
            match planned {
                Ok(run) => self@.plan_error(texts(paths@), opt_text(current)) is None
                    && self@.is_plan(run, texts(paths@), opt_text(current), opt_banner(banner)),
                Err(error) => self@.plan_error(texts(paths@), opt_text(current)) == Some(error),
            },
    {
        let words = match self.resolve(paths, current) {
            Ok(words) => words,
            Err(error) => {
                return Err(error);
            },
        };
        if words.len() == 0 {
            return Err(InvariantViolation::NoProgram);
        }
        let header = header_line(words.as_slice(), banner);
        let program = words[0].clone();
        let mut args: Vec<String> = Vec::new();
        assert(texts(args@) =~= Seq::<Seq<char>>::empty());
        push_copies(&mut args, words.as_slice(), 1, words.len());
        Ok(Invocation { program, args, clean: banner.is_some(), header })
    }

    /// Prepares one run of the command for the paths watched and the path
    /// that changed. A clean run starts on a cleared screen and shows the
    /// banner in its header, so it fails with `MissingBanner` where none is
    /// given; any other run is appended below what the terminal shows, with
    /// a plain header, whether a banner is given or not. Fails as `plan`
    /// does, and for those reasons first.
    pub fn run(
        &self,
        paths: &[String],
        current: Option<&str>,
        clean: bool,
        banner: Option<&Banner>,
    ) -> (planned: Result<Invocation, InvariantViolation>)
        ensures
            match planned {
                Ok(run) => self@.run_error(
                    texts(paths@),
                    opt_text(current),
                    clean,
                    opt_banner(banner),
                ) is None && run.clean == clean && self@.is_plan(
                    run,
                    texts(paths@),
                    opt_text(current),
                    shown(clean, opt_banner(banner)),
                ),
                Err(error) => self@.run_error(
                    texts(paths@),
                    opt_text(current),
                    clean,
                    opt_banner(banner),
                ) == Some(error),
            },
    {
        if !clean {
            return self.plan(paths, current, None);
        }
        let planned = self.plan(paths, current, banner);
        match planned {
            Ok(run) => {
                if banner.is_none() {
                    Err(InvariantViolation::MissingBanner)
                } else {
                    Ok(run)
                }
            },
            Err(error) => Err(error),
        }
    }
}

/// The scan has one answer: two results for the same tokens are the same.
pub proof fn lemma_case_unique(
    tokens: Seq<Seq<char>>,
    case_a: Case,
    index_a: int,
    case_b: Case,
    index_b: int,
)
    requires
        is_case_of(tokens, case_a, index_a),
        is_case_of(tokens, case_b, index_b),
    ensures
        case_a == case_b,
        index_a == index_b,
{
    if case_a != Case::NoPath && case_b != Case::NoPath {
        if index_a < index_b {
            assert(marker(tokens[index_a]) is None);
        }
        if index_b < index_a {
            assert(marker(tokens[index_b]) is None);
        }
    } else if case_a != Case::NoPath {
        assert(marker(tokens[index_a]) is None);
    } else if case_b != Case::NoPath {
        assert(marker(tokens[index_b]) is None);
    }
}

/// A token that holds `%%` holds `%`.
pub proof fn lemma_doubled_holds_single(token: Seq<char>)
    requires
        has_substring(token, all_paths_quoted_marker()),
    ensures
        has_substring(token, all_paths_marker()),
{
    let i = choose|i: int| is_occurrence(token, all_paths_quoted_marker(), i);
    assert(token.subrange(i, i + 2)[0] == '%');
    assert(token.subrange(i, i + 1) =~= all_paths_marker());
    assert(is_occurrence(token, all_paths_marker(), i));
}

/// Tokens that hold neither `{}` nor `%` carry no placeholder: where none
/// of the first `end` tokens holds either, none of them is marked.
pub proof fn lemma_plain_tokens_unmarked(tokens: Seq<Seq<char>>, end: int)
    requires
        forall|j: int|
            0 <= j < end && j < tokens.len() ==> !has_substring(
                #[trigger] tokens[j],
                one_path_marker(),
            ) && !has_substring(tokens[j], all_paths_marker()),
    ensures
        unmarked_before(tokens, end),
{
    assert forall|j: int| 0 <= j < end && j < tokens.len() implies (#[trigger] marker(
        tokens[j],
    )) is None by {
        if has_substring(tokens[j], all_paths_quoted_marker()) {
            lemma_doubled_holds_single(tokens[j]);
        }
    }
}

/// Where the token at `i` holds `{}` and no token before it holds `{}` or
/// `%`, the scan answers `OnePath` at `i` and nothing else, whatever the
/// tokens after `i` hold.
pub proof fn lemma_braces_first(tokens: Seq<Seq<char>>, i: int)
    requires
        0 <= i < tokens.len(),
        has_substring(tokens[i], one_path_marker()),
        forall|j: int|
            0 <= j < i ==> !has_substring(#[trigger] tokens[j], one_path_marker())
                && !has_substring(tokens[j], all_paths_marker()),
    ensures
        is_case_of(tokens, Case::OnePath, i),
        forall|case: Case, index: int| #[trigger]
            is_case_of(tokens, case, index) ==> case == Case::OnePath && index == i,
{
    lemma_plain_tokens_unmarked(tokens, i);
    assert forall|case: Case, index: int| #[trigger]
        is_case_of(tokens, case, index) implies case == Case::OnePath && index == i by {
        lemma_case_unique(tokens, case, index, Case::OnePath, i);
    }
}

/// Where the token at `i` holds `%%` and no `{}`, and no token before it
/// holds `{}` or `%`, the scan answers `AllPathsQuoted` at `i` and nothing
/// else.
pub proof fn lemma_doubled_first(tokens: Seq<Seq<char>>, i: int)
    requires
        0 <= i < tokens.len(),
        has_substring(tokens[i], all_paths_quoted_marker()),
        !has_substring(tokens[i], one_path_marker()),
        forall|j: int|
            0 <= j < i ==> !has_substring(#[trigger] tokens[j], one_path_marker())
                && !has_substring(tokens[j], all_paths_marker()),
    ensures
        is_case_of(tokens, Case::AllPathsQuoted, i),
        forall|case: Case, index: int| #[trigger]
            is_case_of(tokens, case, index) ==> case == Case::AllPathsQuoted && index == i,
{
    lemma_plain_tokens_unmarked(tokens, i);
    assert forall|case: Case, index: int| #[trigger]
        is_case_of(tokens, case, index) implies case == Case::AllPathsQuoted && index == i by {
        lemma_case_unique(tokens, case, index, Case::AllPathsQuoted, i);
    }
}

/// Where no token holds `{}` or `%`, the scan answers `NoPath` at 0 and
/// nothing else.
pub proof fn lemma_no_marker_no_path(tokens: Seq<Seq<char>>)
    requires
        forall|j: int|
            0 <= j < tokens.len() ==> !has_substring(#[trigger] tokens[j], one_path_marker())
                && !has_substring(tokens[j], all_paths_marker()),
    ensures
        is_case_of(tokens, Case::NoPath, 0),
        forall|case: Case, index: int| #[trigger]
            is_case_of(tokens, case, index) ==> case == Case::NoPath && index == 0,
{
    lemma_plain_tokens_unmarked(tokens, tokens.len() as int);
    assert forall|case: Case, index: int| #[trigger]
        is_case_of(tokens, case, index) implies case == Case::NoPath && index == 0 by {
        lemma_case_unique(tokens, case, index, Case::NoPath, 0);
    }
}

} // verus!
