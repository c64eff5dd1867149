//! The command that switches to the user of a profile: how it is configured,
//! and the arguments it is run with.
use vstd::prelude::*;

use crate::text::{
    chars_of, clone_texts, file_name, file_name_of, has_char, is_space, is_whitespace, joined,
    last_component, lemma_one_piece, same_text, starts_with, texts,
};

verus! {

/// Why a configured sudo command was turned down.
#[derive(Debug, Clone, PartialEq, Eq, Structural)]
pub enum SudoParseError {
    /// There is no program.
    Empty,
    /// The arguments of `sudo` name a user flag, but not as the last one.
    MissingUserFlag,
    /// A quote in the legacy string is never closed.
    UnterminatedQuote,
    /// The legacy string ends right after a backslash.
    DanglingEscape,
    /// The legacy string holds shell syntax outside of quotes.
    ComplexSyntax(char),
}

/// What is shown of a `SudoParseError`.
pub open spec fn sudo_error_text(e: SudoParseError) -> Seq<char> {
    match e {
        SudoParseError::Empty => "sudo command must not be empty"@,
        SudoParseError::MissingUserFlag =>
            "sudo argv must end with `-u`, `--user`, or a short option group ending in `u` (e.g. `-iu`) so deploy-rx can append the target user"@,
        SudoParseError::UnterminatedQuote =>
            "legacy sudo string contains unterminated quote; use structured sudo = [\"program\", \"arg\", ...] instead"@,
        SudoParseError::DanglingEscape =>
            "legacy sudo string ends with a dangling escape; use structured sudo = [\"program\", \"arg\", ...] instead"@,
        SudoParseError::ComplexSyntax(c) => "legacy sudo string contains shell syntax `"@.push(c)
            + "`; use structured sudo = [\"program\", \"arg\", ...] instead"@,
    }
}

impl SudoParseError {
    /// The message for this error.
    pub fn message(&self) -> (r: String)
        ensures
            r@ == sudo_error_text(*self),
    {
        match self {
            SudoParseError::Empty => "sudo command must not be empty".to_string(),
            SudoParseError::MissingUserFlag => {
                "sudo argv must end with `-u`, `--user`, or a short option group ending in `u` (e.g. `-iu`) so deploy-rx can append the target user".to_string()
            },
            SudoParseError::UnterminatedQuote => {
                "legacy sudo string contains unterminated quote; use structured sudo = [\"program\", \"arg\", ...] instead".to_string()
            },
            SudoParseError::DanglingEscape => {
                "legacy sudo string ends with a dangling escape; use structured sudo = [\"program\", \"arg\", ...] instead".to_string()
            },
            SudoParseError::ComplexSyntax(c) => {
                let mut r = "legacy sudo string contains shell syntax `".to_string();
                r.push(*c);
                r.concat("`; use structured sudo = [\"program\", \"arg\", ...] instead")
            },
        }
    }
}

/// A command that runs another command as a given user, up to the place where
/// the name of that user stands.
#[derive(Debug, PartialEq, Eq)]
pub struct SudoCommand {
    argv: Vec<String>,
}

/// A sudo command as it is written in a configuration.
#[derive(Debug, Clone, PartialEq, Eq)]
pub enum SudoSetting {
    /// One string, to be split into words.
    Legacy(String),
    /// The program and its arguments.
    Argv(Vec<String>),
}

/// The argument names the program `sudo`, under whatever path.
pub open spec fn names_sudo(arg: Seq<char>) -> bool {
    file_name_of(arg) == Some("sudo"@)
}

/// The position of the first argument that names the program `sudo`.
pub open spec fn sudo_position(argv: Seq<Seq<char>>) -> Option<int>
    decreases argv.len(),
{
    if argv.len() == 0 {
        None
    } else if sudo_position(argv.drop_last()) is Some {
        sudo_position(argv.drop_last())
    } else if names_sudo(argv.last()) {
        Some(argv.len() - 1)
    } else {
        None
    }
}

/// An ASCII letter.
pub open spec fn is_letter(c: char) -> bool {
    ('a' <= c && c <= 'z') || ('A' <= c && c <= 'Z')
}

/// Several one-letter options behind one dash, such as `-iu`.
pub open spec fn is_flag_group(arg: Seq<char>) -> bool {
    &&& arg.len() > 2
    &&& arg[0] == '-'
    &&& forall|i: int| 1 <= i < arg.len() ==> is_letter(#[trigger] arg[i])
}

/// An argument that takes the next one as the name of the user.
pub open spec fn is_user_slot(arg: Seq<char>) -> bool {
    ||| arg == "-u"@
    ||| arg == "--user"@
    ||| is_flag_group(arg) && arg.last() == 'u'
}

/// An argument that gives the user, or takes the next one as the user.
pub open spec fn is_user_flag(arg: Seq<char>) -> bool {
    ||| arg == "-u"@
    ||| arg == "--user"@
    ||| "--user="@.is_prefix_of(arg)
    ||| "-u"@.is_prefix_of(arg) && arg.len() > 2
    ||| is_flag_group(arg) && arg.contains('u')
}

/// Some argument gives the user.
pub open spec fn has_user_flag(argv: Seq<Seq<char>>) -> bool {
    exists|i: int| 0 <= i < argv.len() && is_user_flag(#[trigger] argv[i])
}

/// The arguments, with `-u` behind those of a `sudo` that name no user flag.
pub open spec fn with_user_slot(argv: Seq<Seq<char>>) -> Seq<Seq<char>> {
    if sudo_position(argv) is Some && !is_user_slot(argv.last()) && !has_user_flag(argv) {
        argv.push("-u"@)
    } else {
        argv
    }
}

/// The arguments can be followed by the name of a user: there is a program,
/// and where `sudo` is run the last argument takes the user.
pub open spec fn takes_user(argv: Seq<Seq<char>>) -> bool {
    &&& argv.len() > 0
    &&& sudo_position(argv) is Some ==> is_user_slot(argv.last())
}

/// The sudo command that `argv` configures, or why it is turned down.
pub open spec fn configured(argv: Seq<Seq<char>>) -> Result<Seq<Seq<char>>, SudoParseError> {
    if argv.len() == 0 {
        Err(SudoParseError::Empty)
    } else if !takes_user(with_user_slot(argv)) {
        Err(SudoParseError::MissingUserFlag)
    } else {
        Ok(with_user_slot(argv))
    }
}

/// Some argument behind position `at` makes `sudo` read a password from its
/// standard input.
pub open spec fn reads_stdin(argv: Seq<Seq<char>>, at: int) -> bool {
    exists|i: int| at < i < argv.len() && is_stdin_flag(#[trigger] argv[i])
}

/// Some argument behind position `at` sets the prompt of `sudo`.
pub open spec fn sets_prompt(argv: Seq<Seq<char>>, at: int) -> bool {
    exists|i: int| at < i < argv.len() && is_prompt_flag(#[trigger] argv[i])
}

/// `-S` or `--stdin`.
pub open spec fn is_stdin_flag(arg: Seq<char>) -> bool {
    arg == "-S"@ || arg == "--stdin"@
}

/// `-p`, or an option that starts with `--prompt`.
pub open spec fn is_prompt_flag(arg: Seq<char>) -> bool {
    arg == "-p"@ || "--prompt"@.is_prefix_of(arg)
}

/// What has to stand behind the `sudo` at position `at` for a password to be
/// read from the standard input without a prompt.
pub open spec fn password_flags(argv: Seq<Seq<char>>, at: int) -> Seq<Seq<char>> {
    (if reads_stdin(argv, at) {
        Seq::empty()
    } else {
        seq!["-S"@]
    }) + (if sets_prompt(argv, at) {
        Seq::empty()
    } else {
        seq!["-p"@, Seq::empty()]
    })
}

/// The arguments that run a command as `user`.
pub open spec fn for_user(
    argv: Seq<Seq<char>>,
    user: Seq<char>,
    interactive: bool,
) -> Seq<Seq<char>> {
    match sudo_position(argv) {
        Some(at) if interactive => argv.take(at + 1) + password_flags(argv, at) + argv.skip(at + 1),
        _ => argv,
    }.push(user)
}

/// Characters that mean something to a shell beyond quoting.
pub open spec fn is_shell_syntax(c: char) -> bool {
    ||| c == '|'
    ||| c == '&'
    ||| c == ';'
    ||| c == '<'
    ||| c == '>'
    ||| c == '('
    ||| c == ')'
    ||| c == '$'
    ||| c == '`'
    ||| c == '\n'
    ||| c == '\r'
}

/// Inside which quotes a character of a legacy string stands.
#[derive(Clone, Copy, PartialEq, Eq, Structural)]
pub enum Quote {
    /// Inside none.
    No,
    /// Inside single quotes.
    Single,
    /// Inside double quotes.
    Double,
}

/// The words of a legacy string of which `input` is left to be read, inside
/// `quote`, with `word` begun and `words` complete.
pub open spec fn split_from(
    input: Seq<char>,
    quote: Quote,
    word: Option<Seq<char>>,
    words: Seq<Seq<char>>,
) -> Result<Seq<Seq<char>>, SudoParseError>
    decreases input.len(),
{
    let text = match word {
        Some(w) => w,
        None => Seq::empty(),
    };
    let closed = match word {
        Some(w) => words.push(w),
        None => words,
    };
    if input.len() == 0 {
        if quote != Quote::No {
            Err(SudoParseError::UnterminatedQuote)
        } else if closed.len() == 0 {
            Err(SudoParseError::Empty)
        } else {
            Ok(closed)
        }
    } else {
        let c = input[0];
        let rest = input.drop_first();
        if c == '\'' && quote != Quote::Double {
            split_from(
                rest,
                if quote == Quote::Single {
                    Quote::No
                } else {
                    Quote::Single
                },
                Some(text),
                words,
            )
        } else if c == '"' && quote != Quote::Single {
            split_from(
                rest,
                if quote == Quote::Double {
                    Quote::No
                } else {
                    Quote::Double
                },
                Some(text),
                words,
            )
        } else if c == '\\' && quote != Quote::Single {
            if rest.len() == 0 {
                Err(SudoParseError::DanglingEscape)
            } else {
                split_from(rest.drop_first(), quote, Some(text.push(rest[0])), words)
            }
        } else if quote == Quote::No && is_space(c) {
            split_from(rest, quote, None, closed)
        } else if quote == Quote::No && is_shell_syntax(c) {
            Err(SudoParseError::ComplexSyntax(c))
        } else {
            split_from(rest, quote, Some(text.push(c)), words)
        }
    }
}

/// The words of a legacy string.
pub open spec fn legacy_words(input: Seq<char>) -> Result<Seq<Seq<char>>, SudoParseError> {
    split_from(input, Quote::No, None, Seq::empty())
}

/// The sudo command that a legacy string configures.
pub open spec fn configured_legacy(input: Seq<char>) -> Result<
    Seq<Seq<char>>,
    SudoParseError,
> {
    match legacy_words(input) {
        Ok(words) => configured(words),
        Err(e) => Err(e),
    }
}

/// The sudo command that a setting configures.
pub open spec fn configured_setting(setting: SudoSetting) -> Result<
    Seq<Seq<char>>,
    SudoParseError,
> {
    match setting {
        SudoSetting::Legacy(input) => configured_legacy(input@),
        SudoSetting::Argv(argv) => configured(texts(argv@)),
    }
}

proof fn lemma_sudo_position(argv: Seq<Seq<char>>)
    ensures
        match sudo_position(argv) {
            Some(i) => {
                &&& 0 <= i < argv.len()
                &&& names_sudo(argv[i])
                &&& forall|j: int| 0 <= j < i ==> !names_sudo(#[trigger] argv[j])
            },
            None => forall|j: int| 0 <= j < argv.len() ==> !names_sudo(#[trigger] argv[j]),
        },
    decreases argv.len(),
{
    if argv.len() > 0 {
        let init = argv.drop_last();
        lemma_sudo_position(init);
        assert forall|j: int| 0 <= j < argv.len() - 1 implies #[trigger] argv[j] == init[j] by {}
        if sudo_position(init) is None {
            assert forall|j: int| 0 <= j < argv.len() - 1 implies !names_sudo(#[trigger] argv[j]) by {
                assert(!names_sudo(init[j]));
            }
        } else {
            assert forall|j: int| 0 <= j < sudo_position(init)->0 implies !names_sudo(
                #[trigger] argv[j],
            ) by {
                assert(!names_sudo(init[j]));
            }
        }
    }
}

impl View for SudoCommand {
    type V = Seq<Seq<char>>;

    /// The program and its arguments.
    closed spec fn view(&self) -> Seq<Seq<char>> {
        texts(self.argv@)
    }
}

impl Clone for SudoCommand {
    fn clone(&self) -> (r: Self)
        ensures
            r@ == self@,
    {
        proof {
            use_type_invariant(self);
        }
        SudoCommand { argv: clone_texts(self.argv.as_slice()) }
    }
}

impl SudoCommand {
    /// What holds of every sudo command.
    #[verifier::type_invariant]
    pub closed spec fn wf(&self) -> bool {
        takes_user(texts(self.argv@))
    }

    /// Every sudo command has a program, and one that runs `sudo` ends with an
    /// argument that takes the user.
    pub proof fn law_takes_user(&self)
        requires
            self.wf(),
        ensures
            takes_user(self@),
    {
    }

    /// The sudo command made of the given program and arguments.
    pub fn new(argv: Vec<String>) -> (r: Result<Self, SudoParseError>)
        ensures
            match r {
                Ok(command) => configured(texts(argv@)) == Ok::<_, SudoParseError>(command@),
                Err(e) => configured(texts(argv@)) == Err::<Seq<Seq<char>>, _>(e),
            },
    {
        if argv.is_empty() {
            return Err(SudoParseError::Empty);
        }
        let mut argv = argv;
        Self::normalize_sudo_user_flag(&mut argv);
        match Self::validate(argv.as_slice()) {
            Ok(()) => Ok(SudoCommand { argv }),
            Err(e) => Err(e),
        }
    }

    /// `sudo -u`.
    pub fn default_sudo() -> (r: Self)
        ensures
            r@ == seq!["sudo"@, "-u"@],
    {
        let mut argv: Vec<String> = Vec::new();
        argv.push("sudo".to_string());
        argv.push("-u".to_string());
        assert(texts(argv@) == seq!["sudo"@, "-u"@]);
        SudoCommand { argv }
    }

    /// The sudo command written as one string.
    pub fn parse_legacy(input: &str) -> (r: Result<Self, SudoParseError>)
        ensures
            match r {
                Ok(command) => configured_legacy(input@) == Ok::<_, SudoParseError>(command@),
                Err(e) => configured_legacy(input@) == Err::<Seq<Seq<char>>, _>(e),
            },
    {
        match split_legacy_sudo(input) {
            Ok(words) => Self::new(words),
            Err(e) => Err(e),
        }
    }

    /// The sudo command that a setting configures, in whichever form.
    pub fn from_setting(setting: SudoSetting) -> (r: Result<Self, SudoParseError>)
        ensures
            match r {
                Ok(command) => configured_setting(setting) == Ok::<_, SudoParseError>(command@),
                Err(e) => configured_setting(setting) == Err::<Seq<Seq<char>>, _>(e),
            },
    {
        match setting {
            SudoSetting::Legacy(input) => Self::parse_legacy(input.as_str()),
            SudoSetting::Argv(argv) => Self::new(argv),
        }
    }

    /// The program and its arguments.
    pub fn argv(&self) -> (r: &[String])
        ensures
            texts(r@) == self@,
    {
        self.argv.as_slice()
    }

    fn sudo_index(argv: &[String]) -> (r: Option<usize>)
        ensures
            match r {
                Some(i) => sudo_position(texts(argv@)) == Some(i as int) && i < argv@.len(),
                None => sudo_position(texts(argv@)) is None,
            },
    {
        let ghost all = texts(argv@);
        let mut i: usize = 0;
        while i < argv.len()
            invariant
                i <= argv@.len(),
                all == texts(argv@),
                forall|j: int| 0 <= j < i ==> !names_sudo(#[trigger] all[j]),
            decreases argv@.len() - i,
        {
            assert(all[i as int] == argv@[i as int]@);
            if let Some(name) = file_name(argv[i].as_str()) {
                if same_text(name.as_str(), "sudo") {
                    proof {
                        lemma_sudo_position(all);
                        match sudo_position(all) {
                            Some(k) => {
                                if k < i {
                                    assert(!names_sudo(all[k]));
                                }
                                if i < k {
                                    assert(!names_sudo(all[i as int]));
                                }
                            },
                            None => {
                                assert(!names_sudo(all[i as int]));
                            },
                        }
                    }
                    return Some(i);
                }
            }
            i += 1;
        }
        proof {
            lemma_sudo_position(all);
        }
        None
    }

    /// Whether the command runs `sudo`, itself or wrapped in another program.
    pub fn is_sudo(&self) -> (r: bool)
        ensures
            r == sudo_position(self@) is Some,
    {
        Self::sudo_index(self.argv.as_slice()).is_some()
    }

    fn validate(argv: &[String]) -> (r: Result<(), SudoParseError>)
        requires
            argv@.len() > 0,
        ensures
            r == (if takes_user(texts(argv@)) {
                Ok::<(), SudoParseError>(())
            } else {
                Err(SudoParseError::MissingUserFlag)
            }),
    {
        assert(texts(argv@).last() == argv@.last()@);
        if Self::sudo_index(argv).is_some() && !Self::is_sudo_user_slot_marker(
            argv[argv.len() - 1].as_str(),
        ) {
            return Err(SudoParseError::MissingUserFlag);
        }
        Ok(())
    }

    /// The arguments that run a command as `user`. Where `interactive`, a
    /// `sudo` is made to read the password from its standard input, without a
    /// prompt, unless the command says so already.
    pub fn argv_for_user(&self, user: &str, interactive: bool) -> (r: Vec<String>)
        ensures
            texts(r@) == for_user(self@, user@, interactive),
            r@.len() >= 2,
    {
        proof {
            use_type_invariant(self);
        }
        let mut argv = clone_texts(self.argv.as_slice());
        let ghost all = texts(argv@);
        if interactive {
            if let Some(at) = Self::sudo_index(self.argv.as_slice()) {
                let (stdin_flag, prompt_flag) = Self::password_flags_behind(argv.as_slice(), at);
                assert(at < argv.len());
                let mut insert_at: usize = at + 1;
                if !stdin_flag {
                    argv.insert(insert_at, "-S".to_string());
                    assert(insert_at < argv.len());
                    insert_at += 1;
                }
                if !prompt_flag {
                    argv.insert(insert_at, "-p".to_string());
                    assert(insert_at < argv.len());
                    argv.insert(insert_at + 1, String::new());
                }
                assert(texts(argv@) =~= all.take(at + 1) + password_flags(all, at as int)
                    + all.skip(at + 1));
            }
        }
        let ghost before = texts(argv@);
        argv.push(user.to_string());
        assert(texts(argv@) == before.push(user@));
        argv
    }

    /// Whether an argument behind position `at` makes `sudo` read a password
    /// from its standard input, and whether one sets its prompt.
    fn password_flags_behind(argv: &[String], at: usize) -> (r: (bool, bool))
        requires
            at < argv@.len(),
        ensures
            r.0 == reads_stdin(texts(argv@), at as int),
            r.1 == sets_prompt(texts(argv@), at as int),
    {
        let ghost all = texts(argv@);
        let mut stdin_flag = false;
        let mut prompt_flag = false;
        assert(at < argv.len());
        let mut i: usize = at + 1;
        while i < argv.len()
            invariant
                at < i <= argv@.len(),
                all == texts(argv@),
                stdin_flag == exists|j: int| at < j < i && is_stdin_flag(#[trigger] all[j]),
                prompt_flag == exists|j: int| at < j < i && is_prompt_flag(#[trigger] all[j]),
            decreases argv@.len() - i,
        {
            let arg = argv[i].as_str();
            assert(all[i as int] == arg@);
            if same_text(arg, "-S") || same_text(arg, "--stdin") {
                stdin_flag = true;
            }
            if same_text(arg, "-p") || starts_with(arg, "--prompt") {
                prompt_flag = true;
            }
            i += 1;
        }
        (stdin_flag, prompt_flag)
    }

    fn normalize_sudo_user_flag(argv: &mut Vec<String>)
        requires
            old(argv)@.len() > 0,
        ensures
            texts(final(argv)@) == with_user_slot(texts(old(argv)@)),
            final(argv)@.len() > 0,
    {
        let ghost all = texts(argv@);
        assert(all.last() == argv@.last()@);
        if Self::sudo_index(argv.as_slice()).is_none() {
            return;
        }
        if Self::is_sudo_user_slot_marker(argv[argv.len() - 1].as_str()) {
            return;
        }
        let mut i: usize = 0;
        while i < argv.len()
            invariant
                i <= argv@.len(),
                all == texts(argv@),
                argv@ == old(argv)@,
                argv@.len() > 0,
                forall|j: int| 0 <= j < i ==> !is_user_flag(#[trigger] all[j]),
            decreases argv@.len() - i,
        {
            assert(all[i as int] == argv@[i as int]@);
            if Self::arg_contains_sudo_user_flag(argv[i].as_str()) {
                return;
            }
            i += 1;
        }
        argv.push("-u".to_string());
        assert(texts(argv@) == all.push("-u"@));
    }

    fn is_sudo_user_slot_marker(arg: &str) -> (r: bool)
        ensures
            r == is_user_slot(arg@),
    {
        same_text(arg, "-u") || same_text(arg, "--user") || Self::is_short_flag_group_ending_with_u(
            arg,
        )
    }

    fn arg_contains_sudo_user_flag(arg: &str) -> (r: bool)
        ensures
            r == is_user_flag(arg@),
    {
        same_text(arg, "-u") || same_text(arg, "--user") || starts_with(arg, "--user=") || (
        starts_with(arg, "-u") && chars_of(arg).len() > 2) || Self::is_short_flag_group_containing_u(
            arg,
        )
    }

    fn is_short_flag_group_containing_u(arg: &str) -> (r: bool)
        ensures
            r == (is_flag_group(arg@) && arg@.contains('u')),
    {
        Self::is_short_flag_group(arg) && has_char(arg, 'u')
    }

    fn is_short_flag_group_ending_with_u(arg: &str) -> (r: bool)
        ensures
            r == (is_flag_group(arg@) && arg@.last() == 'u'),
    {
        let chars = chars_of(arg);
        Self::is_short_flag_group(arg) && chars[chars.len() - 1] == 'u'
    }

    fn is_short_flag_group(arg: &str) -> (r: bool)
        ensures
            r == is_flag_group(arg@),
    {
        let chars = chars_of(arg);
        if chars.len() <= 2 || chars[0] != '-' {
            return false;
        }
        let mut i: usize = 1;
        while i < chars.len()
            invariant
                1 <= i <= chars@.len(),
                chars@ == arg@,
                forall|j: int| 1 <= j < i ==> is_letter(#[trigger] chars@[j]),
            decreases chars@.len() - i,
        {
            let c = chars[i];
            if !(('a' <= c && c <= 'z') || ('A' <= c && c <= 'Z')) {
                return false;
            }
            i += 1;
        }
        true
    }
}

fn is_complex_shell_syntax(c: char) -> (r: bool)
    ensures
        r == is_shell_syntax(c),
{
    c == '|' || c == '&' || c == ';' || c == '<' || c == '>' || c == '(' || c == ')' || c == '$'
        || c == '`' || c == '\n' || c == '\r'
}

/// Splits a legacy string into words, by the quoting rules of a shell, and
/// turns down every other shell syntax.
pub fn split_legacy_sudo(input: &str) -> (r: Result<Vec<String>, SudoParseError>)
    ensures
        match r {
            Ok(words) => legacy_words(input@) == Ok::<_, SudoParseError>(texts(words@)),
            Err(e) => legacy_words(input@) == Err::<Seq<Seq<char>>, _>(e),
        },
{
    let chars = chars_of(input);
    let mut tokens: Vec<String> = Vec::new();
    let mut current = String::new();
    let mut token_started = false;
    let mut quote = Quote::No;
    let mut i: usize = 0;
    assert(chars@.skip(0) == chars@);
    assert(texts(tokens@) == Seq::<Seq<char>>::empty());
    while i < chars.len()
        invariant
            i <= chars@.len(),
            !token_started ==> current@.len() == 0,
            legacy_words(input@) == split_from(
                chars@.skip(i as int),
                quote,
                if token_started {
                    Some(current@)
                } else {
                    None
                },
                texts(tokens@),
            ),
        decreases chars@.len() - i,
    {
        let c = chars[i];
        let ghost rest = chars@.skip(i + 1);
        let ghost before = texts(tokens@);
        assert(chars@.skip(i as int).drop_first() == rest);
        assert(!token_started ==> current@ == Seq::<char>::empty());
        if c == '\'' && quote != Quote::Double {
            quote = if quote == Quote::Single {
                Quote::No
            } else {
                Quote::Single
            };
            token_started = true;
            i += 1;
        } else if c == '"' && quote != Quote::Single {
            quote = if quote == Quote::Double {
                Quote::No
            } else {
                Quote::Double
            };
            token_started = true;
            i += 1;
        } else if c == '\\' && quote != Quote::Single {
            if i + 1 >= chars.len() {
                return Err(SudoParseError::DanglingEscape);
            }
            assert(rest.drop_first() == chars@.skip(i + 2));
            current.push(chars[i + 1]);
            token_started = true;
            i += 2;
        } else if quote == Quote::No && is_whitespace(c) {
            if token_started {
                tokens.push(current);
                assert(texts(tokens@) == before.push(current@));
                current = String::new();
                token_started = false;
            }
            i += 1;
        } else if quote == Quote::No && is_complex_shell_syntax(c) {
            return Err(SudoParseError::ComplexSyntax(c));
        } else {
            current.push(c);
            token_started = true;
            i += 1;
        }
    }
    if quote != Quote::No {
        return Err(SudoParseError::UnterminatedQuote);
    }
    let ghost before = texts(tokens@);
    if token_started {
        tokens.push(current);
        assert(texts(tokens@) == before.push(current@));
    }
    if tokens.is_empty() {
        return Err(SudoParseError::Empty);
    }
    Ok(tokens)
}

/// What a sudo command was made of, once accepted, is accepted unchanged: to
/// configure a command with its own arguments gives the same command.
pub proof fn law_configured_is_stable(argv: Seq<Seq<char>>)
    requires
        configured(argv) is Ok,
    ensures
        configured(configured(argv)->Ok_0) == configured(argv),
{
}

/// An argument that takes the user is not the program `sudo`.
proof fn lemma_user_slot_is_not_sudo(arg: Seq<char>)
    requires
        is_user_slot(arg),
    ensures
        !names_sudo(arg),
{
    reveal_strlit("-u");
    reveal_strlit("--user");
    reveal_strlit("sudo");
    assert(!arg.contains('/')) by {
        if arg.contains('/') {
            let i = choose|i: int| 0 <= i < arg.len() && arg[i] == '/';
            if arg == "-u"@ {
                assert(i == 0 || i == 1);
            } else if arg == "--user"@ {
                assert(i == 0 || i == 1 || i == 2 || i == 3 || i == 4 || i == 5);
            } else if i > 0 {
                assert(is_letter(arg[i]));
            }
        }
    }
    lemma_one_piece(arg, '/');
    assert(arg[0] == '-');
    assert(seq![arg].drop_last() == Seq::<Seq<char>>::empty());
    assert(last_component(Seq::<Seq<char>>::empty()) is None);
    if names_sudo(arg) {
        assert(arg == "sudo"@);
        assert("sudo"@[0] == 's');
    }
}

/// The user is the last of the arguments, and where `sudo` is run the one
/// before it is an argument that takes the user.
pub proof fn law_user_comes_last(argv: Seq<Seq<char>>, user: Seq<char>, interactive: bool)
    requires
        takes_user(argv),
    ensures
        ({
            let all = for_user(argv, user, interactive);
            &&& all.len() >= 2
            &&& all.last() == user
            &&& sudo_position(argv) is Some ==> is_user_slot(all[all.len() - 2])
        }),
{
    let all = for_user(argv, user, interactive);
    lemma_sudo_position(argv);
    if sudo_position(argv) is Some {
        let at = sudo_position(argv)->0;
        lemma_user_slot_is_not_sudo(argv.last());
        assert(at < argv.len() - 1);
        assert(argv.skip(at + 1).last() == argv.last());
        assert(all.drop_last().last() == argv.last());
        assert(all[all.len() - 2] == argv.last());
    }
}

/// In an interactive run `sudo` stays where it was, reads the password from
/// its standard input and has its prompt set.
pub proof fn law_interactive_reads_password(argv: Seq<Seq<char>>, user: Seq<char>)
    requires
        sudo_position(argv) is Some,
    ensures
        ({
            let at = sudo_position(argv)->0;
            let all = for_user(argv, user, true);
            &&& sudo_position(all) == Some(at)
            &&& reads_stdin(all, at)
            &&& sets_prompt(all, at)
        }),
{
    let at = sudo_position(argv)->0;
    let all = for_user(argv, user, true);
    let flags = password_flags(argv, at);
    lemma_sudo_position(argv);
    lemma_sudo_position(all);
    assert(all =~= argv.take(at + 1) + flags + argv.skip(at + 1) + seq![user]);
    assert forall|j: int| 0 <= j <= at implies #[trigger] all[j] == argv[j] by {}
    assert(names_sudo(all[at]));
    assert forall|j: int| 0 <= j < at implies !names_sudo(#[trigger] all[j]) by {
        assert(!names_sudo(argv[j]));
    }
    assert forall|j: int| at < j < argv.len() implies #[trigger] argv[j] == all[j + flags.len()] by {}
    if reads_stdin(argv, at) {
        let i = choose|i: int| at < i < argv.len() && is_stdin_flag(#[trigger] argv[i]);
        assert(is_stdin_flag(all[i + flags.len()]));
    } else {
        assert(flags[0] == "-S"@);
        assert(is_stdin_flag(all[at + 1]));
    }
    if sets_prompt(argv, at) {
        let i = choose|i: int| at < i < argv.len() && is_prompt_flag(#[trigger] argv[i]);
        assert(is_prompt_flag(all[i + flags.len()]));
    } else {
        let k = flags.len() - 2;
        assert(flags[k] == "-p"@);
        assert(is_prompt_flag(all[at + 1 + k]));
    }
}

/// A character that stands for itself in a legacy string.
pub open spec fn is_plain(c: char) -> bool {
    &&& c != '\''
    &&& c != '"'
    &&& c != '\\'
    &&& !is_space(c)
    &&& !is_shell_syntax(c)
}

/// A word that can be written in a legacy string as it is.
pub open spec fn is_plain_word(w: Seq<char>) -> bool {
    w.len() > 0 && forall|i: int| 0 <= i < w.len() ==> is_plain(#[trigger] w[i])
}

/// Plain characters are read into the word that is begun.
proof fn lemma_plain_characters(
    w: Seq<char>,
    rest: Seq<char>,
    text: Seq<char>,
    words: Seq<Seq<char>>,
)
    requires
        forall|i: int| 0 <= i < w.len() ==> is_plain(#[trigger] w[i]),
    ensures
        split_from(w + rest, Quote::No, Some(text), words) == split_from(
            rest,
            Quote::No,
            Some(text + w),
            words,
        ),
    decreases w.len(),
{
    if w.len() == 0 {
        assert(w + rest == rest);
        assert(text + w == text);
    } else {
        assert(is_plain(w[0]));
        assert((w + rest)[0] == w[0]);
        assert((w + rest).drop_first() == w.drop_first() + rest);
        assert(text.push(w[0]) + w.drop_first() == text + w);
        assert forall|i: int| 0 <= i < w.drop_first().len() implies is_plain(
            #[trigger] w.drop_first()[i],
        ) by {
            assert(is_plain(w[i + 1]));
        }
        lemma_plain_characters(w.drop_first(), rest, text.push(w[0]), words);
    }
}

/// A plain word at the start of what is left begins a word.
pub proof fn lemma_plain_word(w: Seq<char>, rest: Seq<char>, words: Seq<Seq<char>>)
    requires
        is_plain_word(w),
    ensures
        split_from(w + rest, Quote::No, None, words) == split_from(
            rest,
            Quote::No,
            Some(w),
            words,
        ),
{
    assert(is_plain(w[0]));
    assert((w + rest)[0] == w[0]);
    assert((w + rest).drop_first() == w.drop_first() + rest);
    assert(Seq::<char>::empty().push(w[0]) + w.drop_first() == w);
    assert forall|i: int| 0 <= i < w.drop_first().len() implies is_plain(
        #[trigger] w.drop_first()[i],
    ) by {
        assert(is_plain(w[i + 1]));
    }
    lemma_plain_characters(w.drop_first(), rest, Seq::<char>::empty().push(w[0]), words);
}

proof fn lemma_joined_words(words: Seq<Seq<char>>, rest: Seq<char>)
    requires
        words.len() > 0,
        forall|i: int| 0 <= i < words.len() ==> is_plain_word(#[trigger] words[i]),
    ensures
        split_from(joined(words, " "@) + rest, Quote::No, None, Seq::empty()) == split_from(
            rest,
            Quote::No,
            Some(words.last()),
            words.drop_last(),
        ),
    decreases words.len(),
{
    reveal_strlit(" ");
    if words.len() == 1 {
        assert(words.drop_last() == Seq::<Seq<char>>::empty());
        lemma_plain_word(words[0], rest, Seq::empty());
    } else {
        let init = words.drop_last();
        let tail = words.last() + rest;
        assert forall|i: int| 0 <= i < init.len() implies is_plain_word(#[trigger] init[i]) by {
            assert(is_plain_word(words[i]));
        }
        assert(is_plain_word(words[words.len() - 1]));
        lemma_joined_words(init, " "@ + tail);
        assert(joined(words, " "@) + rest == joined(init, " "@) + (" "@ + tail));
        assert((" "@ + tail)[0] == ' ');
        assert((" "@ + tail).drop_first() == tail);
        assert(init.drop_last().push(init.last()) == init);
        lemma_plain_word(words.last(), rest, init);
    }
}

/// Words that need no quoting, written with single spaces between them, are
/// read back as they are.
pub proof fn law_plain_words_are_read_back(words: Seq<Seq<char>>)
    requires
        words.len() > 0,
        forall|i: int| 0 <= i < words.len() ==> is_plain_word(#[trigger] words[i]),
    ensures
        legacy_words(joined(words, " "@)) == Ok::<_, SudoParseError>(words),
{
    lemma_joined_words(words, Seq::empty());
    assert(joined(words, " "@) + Seq::<char>::empty() == joined(words, " "@));
    assert(words.drop_last().push(words.last()) == words);
}

/// A copy of an optional sudo command.
pub fn clone_opt_sudo(o: &Option<SudoCommand>) -> (r: Option<SudoCommand>)
    ensures
        r is Some <==> *o is Some,
        r matches Some(command) ==> command@ == (*o)->0@,
{
    match o {
        Some(command) => Some(command.clone()),
        None => None,
    }
}

/// A sudo command has to have a program. One that does not run `sudo` is taken as it is;
/// one that does has to end with what takes the user, which is put behind it where it
/// names no user flag at all.
pub proof fn law_sudo_is_given_a_user(argv: Vec<String>, r: Result<SudoCommand, SudoParseError>)
    requires
        call_ensures(SudoCommand::new, (argv,), r),
    ensures
        argv@.len() == 0 ==> r matches Err(SudoParseError::Empty),
        argv@.len() > 0 && (forall|i: int|
            0 <= i < argv@.len() ==> file_name_of((#[trigger] argv@[i])@) != Some("sudo"@)) ==> r
            is Ok && r->Ok_0@ == texts(argv@),
        argv@.len() > 0 && (argv@.last()@ == "-u"@ || argv@.last()@ == "--user"@) ==> r is Ok
            && r->Ok_0@ == texts(argv@),
        (exists|i: int|
            0 <= i < argv@.len() && file_name_of((#[trigger] argv@[i])@) == Some("sudo"@)) && (
        forall|i: int| 0 <= i < argv@.len() ==> !is_user_flag((#[trigger] argv@[i])@)) ==> r is Ok
            && r->Ok_0@ == texts(argv@).push("-u"@),
        (exists|i: int|
            0 <= i < argv@.len() && file_name_of((#[trigger] argv@[i])@) == Some("sudo"@)) && (
        exists|i: int| 0 <= i < argv@.len() && is_user_flag((#[trigger] argv@[i])@))
            && !is_user_slot(argv@.last()@) ==> r matches Err(SudoParseError::MissingUserFlag),
{
    let all = texts(argv@);
    lemma_sudo_position(all);
    assert forall|i: int| 0 <= i < argv@.len() implies #[trigger] all[i] == argv@[i]@ by {}
    if argv@.len() > 0 {
        assert(all.last() == argv@.last()@);
        if is_user_slot(all.last()) {
            lemma_slot_is_flag(all.last());
        }
    }
    if exists|i: int| 0 <= i < argv@.len() && file_name_of((#[trigger] argv@[i])@) == Some("sudo"@) {
        let i = choose|i: int|
            0 <= i < argv@.len() && file_name_of((#[trigger] argv@[i])@) == Some("sudo"@);
        assert(names_sudo(all[i]));
    }
    if sudo_position(all) is Some {
        let i = sudo_position(all)->0;
        assert(file_name_of(argv@[i]@) == Some("sudo"@));
    }
    if has_user_flag(all) {
        let i = choose|i: int| 0 <= i < all.len() && is_user_flag(#[trigger] all[i]);
        assert(is_user_flag(argv@[i]@));
    }
    if exists|i: int| 0 <= i < argv@.len() && is_user_flag((#[trigger] argv@[i])@) {
        let i = choose|i: int| 0 <= i < argv@.len() && is_user_flag((#[trigger] argv@[i])@);
        assert(is_user_flag(all[i]));
    }
    if argv@.len() > 0 {
        assert(all[all.len() - 1] == argv@[argv@.len() - 1]@);
        let more = all.push("-u"@);
        assert(more.last() == "-u"@);
    }
}

proof fn lemma_slot_is_flag(arg: Seq<char>)
    requires
        is_user_slot(arg),
    ensures
        is_user_flag(arg),
{
    if is_flag_group(arg) {
        assert(arg[arg.len() - 1] == arg.last());
    }
}

/// What gives the user: `-u`, `--user` with and without a value, `-u` with the name
/// behind it, and a group of letters with a `u` in it. The next argument is the user
/// behind the first two and behind a group that ends in `u`. The name of a program or
/// an option without a `u` does neither.
pub proof fn law_user_flags_are_known(letters: Seq<char>, value: Seq<char>, arg: Seq<char>)
    requires
        letters.len() > 0,
        forall|i: int| 0 <= i < letters.len() ==> is_letter(#[trigger] letters[i]),
    ensures
        is_user_flag("-u"@) && is_user_slot("-u"@),
        is_user_flag("--user"@) && is_user_slot("--user"@),
        is_user_flag("--user="@ + value) && !is_user_slot("--user="@ + value),
        value.len() > 0 ==> is_user_flag("-u"@ + value),
        is_user_slot("-"@ + letters + "u"@) && is_user_flag("-"@ + letters + "u"@),
        letters.contains('u') && letters.len() > 1 ==> is_user_flag("-"@ + letters),
        letters.last() != 'u' ==> !is_user_slot("-"@ + letters),
        !letters.contains('u') ==> !is_user_flag("-"@ + letters),
        arg.len() > 0 && arg[0] != '-' ==> !is_user_flag(arg) && !is_user_slot(arg),
{
    reveal_strlit("-u");
    reveal_strlit("--user");
    reveal_strlit("--user=");
    reveal_strlit("-");
    reveal_strlit("u");
    let named = "--user="@ + value;
    assert(named.subrange(0, 7) =~= "--user="@);
    assert(named[6] == '=');
    assert(named[1] == '-');
    assert(!is_letter('-') && is_letter('u'));
    assert(!is_user_slot(named)) by {
        if named == "-u"@ {
            assert(named.len() == 2);
        }
        if named == "--user"@ {
            assert(named.len() == 6);
        }
        if is_flag_group(named) {
            assert(is_letter(named[1]));
        }
    }
    let short = "-u"@ + value;
    assert(short.subrange(0, 2) =~= "-u"@);
    let group = "-"@ + letters + "u"@;
    assert(group.len() > 2 && group[0] == '-' && group.last() == 'u');
    assert forall|i: int| 1 <= i < group.len() implies is_letter(#[trigger] group[i]) by {
        if i - 1 < letters.len() {
            assert(is_letter(letters[i - 1]));
        }
    }
    assert(group.contains(group[group.len() - 1]));
    let own = "-"@ + letters;
    assert(own[0] == '-');
    assert forall|i: int| 1 <= i < own.len() implies is_letter(#[trigger] own[i]) by {
        assert(is_letter(letters[i - 1]));
    }
    assert(own.last() == letters.last());
    assert(is_letter(letters[0]));
    assert(own[1] == letters[0]);
    if letters.contains('u') {
        let i = choose|i: int| 0 <= i < letters.len() && letters[i] == 'u';
        assert(own[i + 1] == 'u');
        assert(own.contains('u'));
    } else {
        assert(!own.contains('u')) by {
            if own.contains('u') {
                let i = choose|i: int| 0 <= i < own.len() && own[i] == 'u';
                assert(letters[i - 1] == 'u');
                assert(letters.contains(letters[i - 1]));
            }
        }
        if own == "-u"@ {
            assert(own[1] == 'u');
            assert(own.contains(own[1]));
        }
        if "-u"@.is_prefix_of(own) {
            assert(own.subrange(0, 2)[1] == 'u');
            assert(own.contains(own[1]));
        }
        if "--user="@.is_prefix_of(own) {
            assert(own.subrange(0, 7)[1] == '-');
        }
    }
    if letters.last() != 'u' {
        if own == "-u"@ {
            assert(own[1] == 'u');
            assert(letters.last() == letters[letters.len() - 1]);
        }
    }
    if arg.len() > 0 && arg[0] != '-' {
        if "--user="@.is_prefix_of(arg) {
            assert(arg.subrange(0, 7)[0] == '-');
        }
        if "-u"@.is_prefix_of(arg) {
            assert(arg.subrange(0, 2)[0] == '-');
        }
    }
}

/// A command is run as a user with all arguments of the sudo command in their order and
/// the user behind them. In an interactive run of `sudo` options for reading the
/// password come in behind it; nothing else is ever added.
pub proof fn law_arguments_are_kept_for_the_user(
    sudo: SudoCommand,
    user: &str,
    interactive: bool,
    is_sudo: bool,
    r: Vec<String>,
)
    requires
        call_ensures(SudoCommand::argv_for_user, (&sudo, user, interactive), r),
        call_ensures(SudoCommand::is_sudo, (&sudo,), is_sudo),
    ensures
        !interactive || !is_sudo ==> texts(r@) == sudo@.push(user@),
        is_sudo <==> exists|i: int|
            0 <= i < sudo@.len() && file_name_of(#[trigger] sudo@[i]) == Some("sudo"@),
        interactive && is_sudo ==> exists|at: int, more: Seq<Seq<char>>|
            0 <= at < sudo@.len() && file_name_of(sudo@[at]) == Some("sudo"@) && (forall|i: int|
                0 <= i < at ==> file_name_of(#[trigger] sudo@[i]) != Some("sudo"@)) && texts(r@)
                == #[trigger] (sudo@.take(at + 1) + more + sudo@.skip(at + 1)).push(user@) && (
            forall|i: int|
                0 <= i < more.len() ==> (#[trigger] more[i]) == "-S"@ || more[i] == "-p"@
                    || more[i].len() == 0),
{
    let argv = sudo@;
    lemma_sudo_position(argv);
    if sudo_position(argv) is Some {
        let at = sudo_position(argv)->0;
        assert(file_name_of(argv[at]) == Some("sudo"@));
        let more = password_flags(argv, at);
        assert forall|i: int| 0 <= i < at implies file_name_of(#[trigger] argv[i]) != Some(
            "sudo"@,
        ) by {
            assert(!names_sudo(argv[i]));
        }
        if interactive {
            assert(texts(r@) == (argv.take(at + 1) + more + argv.skip(at + 1)).push(user@));
        }
    } else {
        assert forall|i: int| 0 <= i < argv.len() implies file_name_of(#[trigger] argv[i]) != Some(
            "sudo"@,
        ) by {
            assert(!names_sudo(argv[i]));
        }
    }
}

/// A password is read from the standard input by `-S` or `--stdin`, and the prompt is
/// set by `-p` or `--prompt`, with a value or without; these are not given twice.
pub proof fn law_password_options_are_not_repeated(argv: Seq<Seq<char>>, at: int, i: int)
    requires
        0 <= at < i < argv.len(),
    ensures
        argv[i] == "-S"@ || argv[i] == "--stdin"@ ==> !password_flags(argv, at).contains("-S"@),
        argv[i] == "-p"@ || "--prompt"@.is_prefix_of(argv[i]) ==> !password_flags(
            argv,
            at,
        ).contains("-p"@),
{
    reveal_strlit("-S");
    reveal_strlit("-p");
    assert("-S"@[1] == 'S' && "-p"@[1] == 'p');
    let flags = password_flags(argv, at);
    if argv[i] == "-S"@ || argv[i] == "--stdin"@ {
        assert(is_stdin_flag(argv[i]));
        assert(reads_stdin(argv, at));
        if flags.contains("-S"@) {
            let k = choose|k: int| 0 <= k < flags.len() && flags[k] == "-S"@;
            assert(flags[k] == "-p"@ || flags[k].len() == 0);
        }
    }
    if argv[i] == "-p"@ || "--prompt"@.is_prefix_of(argv[i]) {
        assert(is_prompt_flag(argv[i]));
        assert(sets_prompt(argv, at));
        if flags.contains("-p"@) {
            let k = choose|k: int| 0 <= k < flags.len() && flags[k] == "-p"@;
            assert(flags[k] == "-S"@);
        }
    }
}

/// A setting means the same in both of its forms: a string is what its words are.
pub proof fn law_string_is_its_words(
    input: String,
    words: Vec<String>,
    read: Result<Vec<String>, SudoParseError>,
    text: &str,
    by_string: Result<SudoCommand, SudoParseError>,
    by_list: Result<SudoCommand, SudoParseError>,
)
    requires
        text@ == input@,
        call_ensures(split_legacy_sudo, (text,), read),
        read matches Ok(w) ==> texts(w@) == texts(words@),
        call_ensures(SudoCommand::from_setting, (SudoSetting::Legacy(input),), by_string),
        call_ensures(SudoCommand::from_setting, (SudoSetting::Argv(words),), by_list),
    ensures
        read matches Err(e) ==> by_string matches Err(why) && why == read->Err_0,
        read is Ok ==> {
            &&& by_string is Ok <==> by_list is Ok
            &&& by_string is Ok ==> by_string->Ok_0@ == by_list->Ok_0@
            &&& by_string is Err ==> by_string->Err_0 == by_list->Err_0
        },
{
}

/// Outside of quotes the characters of a shell's own syntax are refused, wherever they
/// stand, and the one that stands first is named.
pub proof fn law_shell_syntax_is_refused(words: Seq<Seq<char>>, c: char, rest: Seq<char>)
    requires
        words.len() > 0,
        forall|i: int| 0 <= i < words.len() ==> is_plain_word(#[trigger] words[i]),
        c == '|' || c == '&' || c == ';' || c == '<' || c == '>' || c == '(' || c == ')' || c == '$'
            || c == '`',
    ensures
        legacy_words(joined(words, " "@) + seq![c] + rest) == Err::<Seq<Seq<char>>, _>(
            SudoParseError::ComplexSyntax(c),
        ),
        legacy_words(seq![c] + rest) == Err::<Seq<Seq<char>>, _>(SudoParseError::ComplexSyntax(c)),
{
    let tail = seq![c] + rest;
    lemma_joined_words(words, tail);
    assert(joined(words, " "@) + seq![c] + rest =~= joined(words, " "@) + tail);
    assert(tail[0] == c);
    assert(!is_space(c));
}

/// A character that is neither white space nor a quote nor a backslash nor part of a
/// shell's own syntax stands for itself.
pub proof fn law_other_characters_stand_for_themselves(c: char)
    requires
        !is_space(c),
        c != '\'' && c != '"' && c != '\\',
        c != '|' && c != '&' && c != ';' && c != '<' && c != '>' && c != '(' && c != ')' && c != '$'
            && c != '`',
    ensures
        legacy_words(seq![c]) == Ok::<_, SudoParseError>(seq![seq![c]]),
{
    let t = seq![c];
    assert(t.drop_first() =~= Seq::<char>::empty());
    assert(Seq::<char>::empty().push(c) =~= seq![c]);
    assert(c != '\n' && c != '\r') by {
        assert(is_space('\n') && is_space('\r'));
    }
    assert(split_from(Seq::empty(), Quote::No, Some(seq![c]), Seq::empty()) == Ok::<
        _,
        SudoParseError,
    >(Seq::<Seq<char>>::empty().push(seq![c])));
    assert(Seq::<Seq<char>>::empty().push(seq![c]) =~= seq![seq![c]]);
}

/// What is quoted or escaped belongs to a word: double quotes hold everything but
/// themselves and backslashes as it is, and a backslash makes the next character stand
/// for itself.
pub proof fn law_quotes_and_escapes_make_words(text: Seq<char>, c: char)
    requires
        !text.contains('"'),
        !text.contains('\\'),
    ensures
        legacy_words(seq!['"'] + text + seq!['"']) == Ok::<_, SudoParseError>(seq![text]),
        legacy_words(seq!['\\', c]) == Ok::<_, SudoParseError>(seq![seq![c]]),
{
    let empty = Seq::<Seq<char>>::empty();
    let all = seq!['"'] + text + seq!['"'];
    let close = seq!['"'];
    assert(all.drop_first() =~= text + close);
    lemma_double_quoted(text, close, Seq::empty(), empty);
    assert(Seq::<char>::empty() + text =~= text);
    assert(close.drop_first() =~= Seq::<char>::empty());
    assert(split_from(close, Quote::Double, Some(text), empty) == split_from(
        Seq::empty(),
        Quote::No,
        Some(text),
        empty,
    ));
    assert(empty.push(text) =~= seq![text]);
    let escaped = seq!['\\', c];
    assert(escaped.drop_first().drop_first() =~= Seq::<char>::empty());
    assert(escaped.drop_first()[0] == c);
    assert(Seq::<char>::empty().push(c) =~= seq![c]);
    assert(split_from(Seq::empty(), Quote::No, Some(seq![c]), empty) == Ok::<_, SudoParseError>(
        empty.push(seq![c]),
    ));
    assert(empty.push(seq![c]) =~= seq![seq![c]]);
}

proof fn lemma_double_quoted(
    text: Seq<char>,
    rest: Seq<char>,
    begun: Seq<char>,
    words: Seq<Seq<char>>,
)
    requires
        !text.contains('"'),
        !text.contains('\\'),
    ensures
        split_from(text + rest, Quote::Double, Some(begun), words) == split_from(
            rest,
            Quote::Double,
            Some(begun + text),
            words,
        ),
    decreases text.len(),
{
    if text.len() == 0 {
        assert(text + rest =~= rest);
        assert(begun + text =~= begun);
    } else {
        let tail = text.drop_first();
        assert(text.contains(text[0]));
        assert forall|i: int| 0 <= i < tail.len() implies tail[i] != '"' && tail[i] != '\\' by {
            assert(text.contains(text[i + 1]));
        }
        assert((text + rest)[0] == text[0]);
        assert((text + rest).drop_first() =~= tail + rest);
        lemma_double_quoted(tail, rest, begun.push(text[0]), words);
        assert(begun.push(text[0]) + tail =~= begun + text);
    }
}

/// A quote that is not closed is refused, and so is a backslash at the end.
pub proof fn law_open_ends_are_refused(text: Seq<char>)
    requires
        !text.contains('"'),
        !text.contains('\\'),
    ensures
        legacy_words(seq!['"'] + text) == Err::<Seq<Seq<char>>, _>(
            SudoParseError::UnterminatedQuote,
        ),
        legacy_words(seq!['\\']) == Err::<Seq<Seq<char>>, _>(SudoParseError::DanglingEscape),
        legacy_words(Seq::empty()) == Err::<Seq<Seq<char>>, _>(SudoParseError::Empty),
{
    let empty = Seq::<Seq<char>>::empty();
    let all = seq!['"'] + text;
    assert(all.drop_first() =~= text + Seq::<char>::empty());
    lemma_double_quoted(text, Seq::empty(), Seq::empty(), empty);
    assert(split_from(Seq::empty(), Quote::Double, Some(Seq::<char>::empty() + text), empty)
        == Err::<Seq<Seq<char>>, _>(SudoParseError::UnterminatedQuote));
    assert(seq!['\\'].drop_first() =~= Seq::<char>::empty());
}

/// In an interactive run `sudo` is told to read the password from its standard input and
/// to print no prompt wherever none of its own arguments says so.
pub proof fn law_password_options_are_added_where_wanting(argv: Seq<Seq<char>>, at: int)
    requires
        0 <= at < argv.len(),
    ensures
        (forall|i: int|
            at < i < argv.len() ==> (#[trigger] argv[i]) != "-S"@ && argv[i] != "--stdin"@)
            ==> password_flags(argv, at).len() > 0 && password_flags(argv, at)[0] == "-S"@,
        (forall|i: int|
            at < i < argv.len() ==> (#[trigger] argv[i]) != "-p"@ && !"--prompt"@.is_prefix_of(
                argv[i],
            )) ==> {
            let flags = password_flags(argv, at);
            &&& flags.len() >= 2
            &&& flags[flags.len() - 2] == "-p"@
            &&& flags.last().len() == 0
        },
{
    if forall|i: int|
        at < i < argv.len() ==> (#[trigger] argv[i]) != "-S"@ && argv[i] != "--stdin"@ {
        assert(!reads_stdin(argv, at));
    }
    if forall|i: int|
        at < i < argv.len() ==> (#[trigger] argv[i]) != "-p"@ && !"--prompt"@.is_prefix_of(
            argv[i],
        ) {
        assert(!sets_prompt(argv, at));
    }
}

/// White space ends a word that is begun, however much there is of it.
proof fn lemma_space_ends_word(
    space: Seq<char>,
    rest: Seq<char>,
    word: Option<Seq<char>>,
    words: Seq<Seq<char>>,
)
    requires
        space.len() > 0,
        forall|i: int| 0 <= i < space.len() ==> is_space(#[trigger] space[i]),
    ensures
        split_from(space + rest, Quote::No, word, words) == split_from(
            rest,
            Quote::No,
            None,
            match word {
                Some(w) => words.push(w),
                None => words,
            },
        ),
    decreases space.len(),
{
    let all = space + rest;
    let tail = space.drop_first();
    assert(is_space(space[0]));
    assert(all[0] == space[0]);
    assert(all.drop_first() =~= tail + rest);
    let closed = match word {
        Some(w) => words.push(w),
        None => words,
    };
    if tail.len() > 0 {
        assert forall|i: int| 0 <= i < tail.len() implies is_space(#[trigger] tail[i]) by {
            assert(is_space(space[i + 1]));
        }
        lemma_space_ends_word(tail, rest, None, closed);
    } else {
        assert(tail + rest =~= rest);
    }
}

/// Words are parted by white space of any kind and length, and none of it belongs to a
/// word, neither before the first one nor behind the last one.
pub proof fn law_words_are_parted_by_white_space(
    lead: Seq<char>,
    first: Seq<char>,
    space: Seq<char>,
    second: Seq<char>,
    end: Seq<char>,
)
    requires
        is_plain_word(first),
        is_plain_word(second),
        lead.len() > 0 && space.len() > 0 && end.len() > 0,
        forall|i: int| 0 <= i < lead.len() ==> is_space(#[trigger] lead[i]),
        forall|i: int| 0 <= i < space.len() ==> is_space(#[trigger] space[i]),
        forall|i: int| 0 <= i < end.len() ==> is_space(#[trigger] end[i]),
    ensures
        legacy_words(first + (space + second)) == Ok::<_, SudoParseError>(seq![first, second]),
        legacy_words(lead + (first + (space + (second + end)))) == Ok::<_, SudoParseError>(
            seq![first, second],
        ),
        legacy_words(lead) == Err::<Seq<Seq<char>>, _>(SudoParseError::Empty),
{
    let none = Seq::<Seq<char>>::empty();
    let nothing = Seq::<char>::empty();
    lemma_space_ends_word(lead, first + (space + (second + end)), None, none);
    lemma_plain_word(first, space + (second + end), none);
    lemma_space_ends_word(space, second + end, Some(first), none);
    lemma_plain_word(second, end, none.push(first));
    lemma_space_ends_word(end, nothing, Some(second), none.push(first));
    assert(end + nothing =~= end);
    assert(none.push(first).push(second) =~= seq![first, second]);
    lemma_plain_word(first, space + second, none);
    lemma_space_ends_word(space, second, Some(first), none);
    lemma_plain_word(second, nothing, none.push(first));
    assert(second + nothing =~= second);
    lemma_space_ends_word(lead, nothing, None, none);
    assert(lead + nothing =~= lead);
}

/// Quotes and escapes may stand in the middle of a word, and an escape works inside
/// double quotes.
pub proof fn law_quoted_parts_belong_to_their_word(word: Seq<char>, text: Seq<char>, c: char)
    requires
        is_plain_word(word),
        !text.contains('"'),
        !text.contains('\\'),
    ensures
        legacy_words(word + (seq!['"'] + (text + seq!['"']))) == Ok::<_, SudoParseError>(
            seq![word + text],
        ),
        legacy_words(seq!['"'] + (text + seq!['\\', c, '"'])) == Ok::<_, SudoParseError>(
            seq![text.push(c)],
        ),
        legacy_words(word + seq!['\\', c]) == Ok::<_, SudoParseError>(seq![word.push(c)]),
        legacy_words(word + seq!['\'']) == Err::<Seq<Seq<char>>, _>(
            SudoParseError::UnterminatedQuote,
        ),
{
    let none = Seq::<Seq<char>>::empty();
    let nothing = Seq::<char>::empty();
    let close = seq!['"'];
    let quoted = seq!['"'] + (text + close);
    lemma_plain_word(word, quoted, none);
    assert(quoted.drop_first() =~= text + close);
    lemma_double_quoted(text, close, word, none);
    assert(close.drop_first() =~= nothing);
    assert(split_from(close, Quote::Double, Some(word + text), none) == split_from(
        nothing,
        Quote::No,
        Some(word + text),
        none,
    ));
    assert(none.push(word + text) =~= seq![word + text]);
    let escape = seq!['\\', c, '"'];
    let escaped = seq!['"'] + (text + escape);
    assert(escaped.drop_first() =~= text + escape);
    lemma_double_quoted(text, escape, nothing, none);
    assert(nothing + text =~= text);
    assert(escape.drop_first().drop_first() =~= close);
    assert(escape.drop_first()[0] == c);
    assert(split_from(escape, Quote::Double, Some(text), none) == split_from(
        close,
        Quote::Double,
        Some(text.push(c)),
        none,
    ));
    assert(split_from(close, Quote::Double, Some(text.push(c)), none) == split_from(
        nothing,
        Quote::No,
        Some(text.push(c)),
        none,
    ));
    assert(none.push(text.push(c)) =~= seq![text.push(c)]);
    let behind = seq!['\\', c];
    lemma_plain_word(word, behind, none);
    assert(behind.drop_first().drop_first() =~= nothing);
    assert(behind.drop_first()[0] == c);
    assert(split_from(behind, Quote::No, Some(word), none) == split_from(
        nothing,
        Quote::No,
        Some(word.push(c)),
        none,
    ));
    assert(none.push(word.push(c)) =~= seq![word.push(c)]);
    let open = seq!['\''];
    lemma_plain_word(word, open, none);
    assert(open.drop_first() =~= nothing);
    assert(split_from(open, Quote::No, Some(word), none) == split_from(
        nothing,
        Quote::Single,
        Some(word),
        none,
    ));
}

} // verus!
