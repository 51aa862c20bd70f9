//! Command-line parsing without a shell: white space is trimmed, shell syntax
//! is refused, words are split as a POSIX shell would split them, and only
//! executables of the trusted catalog are accepted.

use vstd::prelude::*;
use crate::catalog::{definition_for, is_known_command, spec_definition_for, spec_is_known};
use crate::models::ParsedCommand;
use crate::text::{chars_of, contains_exec, contains_seq, trim, trim_str};

verus! {

pub const EMPTY_COMMAND_MESSAGE: &'static str = "请输入要执行的命令";

pub const SHELL_SYNTAX_MESSAGE: &'static str = "MVP 不支持管道、重定向或组合 Shell 命令";

pub const UNBALANCED_QUOTE_MESSAGE: &'static str = "命令中的引号不完整";

pub const UNKNOWN_COMMAND_MESSAGE: &'static str = "Quick Command 只执行已登记的安全命令：code、cursor、idea、webstorm、zed、open、ls、ll、cat、cd、mkdir";

/// The words of `s` as `shell_words::split` gives them; `None` where it
/// reports an unmatched quote.
pub uninterp spec fn shell_split(s: Seq<char>) -> Option<Seq<Seq<char>>>;

/// Calls `shell_words::split`, which splits a line into words by the POSIX
/// shell's quoting rules (quote removal only, no expansion) and fails on an
/// unmatched quote. The contract claims only that the result is the named
/// function of the input.
#[verifier::external_body]
fn split_words(s: &str) -> (r: Option<Vec<String>>)
    ensures
        r is Some <==> shell_split(s@) is Some,
        r matches Some(w) ==> w.deep_view() == shell_split(s@)->0,
{
    shell_words::split(s).ok()
}

/// Pipes, redirections, chaining and command substitution.
pub open spec fn has_shell_syntax(t: Seq<char>) -> bool {
    ||| contains_seq(t, "|"@)
    ||| contains_seq(t, "||"@)
    ||| contains_seq(t, "&&"@)
    ||| contains_seq(t, ";"@)
    ||| contains_seq(t, ">"@)
    ||| contains_seq(t, ">>"@)
    ||| contains_seq(t, "<"@)
    ||| contains_seq(t, "<<"@)
    ||| contains_seq(t, "`"@)
    ||| contains_seq(t, "$("@)
}

/// What parsing decides: a message, or the executable, its arguments and the
/// index of the argument that names a project directory.
pub enum ParseOutcome {
    Rejected(Seq<char>),
    Accepted(Seq<char>, Seq<Seq<char>>, Option<usize>),
}

/// The outcome for the words that splitting produced (`None`: unmatched quote).
pub open spec fn words_outcome(words: Option<Seq<Seq<char>>>) -> ParseOutcome {
    match words {
        None => ParseOutcome::Rejected(UNBALANCED_QUOTE_MESSAGE@),
        Some(w) => if w.len() == 0 {
            ParseOutcome::Rejected(EMPTY_COMMAND_MESSAGE@)
        } else if !spec_is_known(w[0]) {
            ParseOutcome::Rejected(UNKNOWN_COMMAND_MESSAGE@)
        } else {
            ParseOutcome::Accepted(
                w[0],
                w.drop_first(),
                if spec_definition_for(w[0]).project_search && w.len() > 1 {
                    Some(0usize)
                } else {
                    None
                },
            )
        },
    }
}

/// The outcome of parsing the line `input`.
pub open spec fn parse_outcome(input: Seq<char>) -> ParseOutcome {
    let t = trim(input);
    if t.len() == 0 {
        ParseOutcome::Rejected(EMPTY_COMMAND_MESSAGE@)
    } else if has_shell_syntax(t) {
        ParseOutcome::Rejected(SHELL_SYNTAX_MESSAGE@)
    } else {
        words_outcome(shell_split(t))
    }
}

/// `r` is what `o` describes.
pub open spec fn result_matches(r: Result<ParsedCommand, String>, o: ParseOutcome) -> bool {
    match r {
        Ok(p) => o == ParseOutcome::Accepted(
            p.executable@,
            p.args.deep_view(),
            p.directory_arg_index,
        ),
        Err(m) => o == ParseOutcome::Rejected(m@),
    }
}

fn contains_token(t: &Vec<char>, token: &str) -> (r: bool)
    ensures
        r == contains_seq(t@, token@),
{
    let needle = chars_of(token);
    contains_exec(t, &needle)
}

fn shell_syntax(t: &Vec<char>) -> (r: bool)
    ensures
        r == has_shell_syntax(t@),
{
    contains_token(t, "|") || contains_token(t, "||") || contains_token(t, "&&") || contains_token(
        t,
        ";",
    ) || contains_token(t, ">") || contains_token(t, ">>") || contains_token(t, "<")
        || contains_token(t, "<<") || contains_token(t, "`") || contains_token(t, "$(")
}

/// Builds the parsed command from the words of a line (`None` when the line
/// had an unmatched quote): the first word must be a catalog executable.
pub fn parse_split_words(words: Option<Vec<String>>) -> (r: Result<ParsedCommand, String>)
    ensures
        result_matches(r, words_outcome(words.deep_view())),
{
    match words {
        None => Err(UNBALANCED_QUOTE_MESSAGE.to_owned()),
        Some(mut w) => {
            if w.len() == 0 {
                return Err(EMPTY_COMMAND_MESSAGE.to_owned());
            }
            let ghost all = w.deep_view();
            let executable = w.remove(0);
            assert(w.deep_view() =~= all.drop_first());
            if !is_known_command(executable.as_str()) {
                return Err(UNKNOWN_COMMAND_MESSAGE.to_owned());
            }
            let definition = definition_for(executable.as_str());
            let directory_arg_index = if definition.project_search && w.len() > 0 {
                Some(0usize)
            } else {
                None
            };
            Ok(ParsedCommand { executable, args: w, directory_arg_index })
        },
    }
}

/// Parses one launcher line without a shell.
pub fn parse(input: &str) -> (r: Result<ParsedCommand, String>)
    ensures
        result_matches(r, parse_outcome(input@)),
{
    let trimmed = trim_str(input);
    let chars = chars_of(trimmed.as_str());
    if chars.len() == 0 {
        return Err(EMPTY_COMMAND_MESSAGE.to_owned());
    }
    if shell_syntax(&chars) {
        return Err(SHELL_SYNTAX_MESSAGE.to_owned());
    }
    let words = split_words(trimmed.as_str());
    parse_split_words(words)
}

/// A line that parsing accepts holds no shell syntax and starts with an
/// executable of the trusted catalog.
pub proof fn lemma_accepted_lines_are_safe(input: Seq<char>)
    requires
        parse_outcome(input) is Accepted,
    ensures
        !has_shell_syntax(trim(input)),
        spec_is_known(parse_outcome(input)->Accepted_0),
{
}

/// Which catalog commands search projects: the editors and `cd`.
proof fn lemma_project_search_names(e: Seq<char>)
    requires
        spec_is_known(e),
    ensures
        spec_definition_for(e).project_search <==> (e == "code"@ || e == "open"@ || e == "cursor"@ || e
            == "idea"@ || e == "webstorm"@ || e == "zed"@ || e == "cd"@),
{
    reveal_strlit("ls");
    reveal_strlit("ll");
    reveal_strlit("cat");
    reveal_strlit("code");
    reveal_strlit("open");
    reveal_strlit("cursor");
    reveal_strlit("idea");
    reveal_strlit("webstorm");
    reveal_strlit("zed");
    reveal_strlit("mkdir");
    reveal_strlit("cd");
    assert("ls"@[0] == 'l' && "ls"@[1] == 's' && "ll"@[1] == 'l' && "cat"@[0] == 'c' && "zed"@[0] == 'z');
    assert("code"@[0] == 'c' && "open"@[0] == 'o' && "idea"@[0] == 'i' && "cd"@[0] == 'c' && "cd"@[1] == 'd');
    assert("cursor"@[0] == 'c' && "mkdir"@[0] == 'm' && "webstorm"@[0] == 'w' && "ll"@[0] == 'l');
    assert("cat"@.len() == 3 && "code"@.len() == 4 && "cursor"@.len() == 6 && "cd"@.len() == 2);
    if e == "ls"@ {
        assert(!spec_definition_for(e).project_search);
    } else if e == "ll"@ {
        assert(!spec_definition_for(e).project_search);
    } else if e == "cat"@ {
        assert(!spec_definition_for(e).project_search);
    } else if e == "mkdir"@ {
        assert(!spec_definition_for(e).project_search);
    } else if e == "cd"@ {
        assert(spec_definition_for(e).project_search);
    } else {
        assert(spec_definition_for(e).project_search);
    }
}

/// The editors and `cd` search projects: an accepted line whose executable
/// is one of them and that has an argument marks its first argument as the
/// project directory; every other accepted line marks none.
pub proof fn lemma_directory_argument(input: Seq<char>)
    ensures
        parse_outcome(input) matches ParseOutcome::Accepted(e, args, index) ==> index == (if args.len() > 0 && (
        e == "code"@ || e == "open"@ || e == "cursor"@ || e == "idea"@ || e == "webstorm"@ || e == "zed"@ || e
            == "cd"@) {
            Some(0usize)
        } else {
            None
        }),
{
    let t = trim(input);
    if t.len() != 0 && !has_shell_syntax(t) {
        if let Some(w) = shell_split(t) {
            if w.len() > 0 && spec_is_known(w[0]) {
                lemma_project_search_names(w[0]);
                assert(w.drop_first().len() == w.len() - 1);
            }
        }
    }
}

} // verus!
