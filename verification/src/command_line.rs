//! What the command line asks for: a directory to open, a file to leave the
//! last directory in, or an answer printed instead of running at all.

use vstd::prelude::*;

use crate::text::{chars_of, push_str, same_text, string_of};

verus! {

/// What `--help` prints.
pub const USAGE: &'static str = "mula \u{2014} a dual-pane terminal file manager

Usage:
    mula [OPTIONS] [DIRECTORY]

Both panels open in DIRECTORY, or in the directory mula was started from when
none is given.

Options:
    --init SHELL     Print the shell function that leaves your shell in the
                     directory mula was quit in; SHELL is bash, zsh or fish.
                     Put `eval \"$(mula --init zsh)\"` in your rc file
    --cwd-file FILE  On quitting, write the directory of the focused panel
                     to FILE; the function above uses this
    -h, --help       Print this and exit
    -V, --version    Print the version and exit

Press F1 while it runs for the keys that work where you are standing.
";

/// The shells a function is kept for.
#[derive(Clone, Copy, Debug, PartialEq, Eq)]
pub enum Shell {
    /// bash and zsh, which read the same function.
    Posix,
    Fish,
}

/// What the command line is answered with instead of running.
#[derive(Debug, Clone, PartialEq, Eq)]
pub enum Answered {
    /// The usage text.
    Help,
    /// The name and the version.
    Version,
    /// The function that leaves the shell where mula was quit.
    Function(Shell),
    /// Something that cannot be done, in words.
    Refusal(String),
}

/// What running asks for: the directory to open, if one was named, and the
/// file to leave the last directory in.
#[derive(Debug, Clone, PartialEq, Eq)]
pub struct Options {
    pub directory: Option<String>,
    pub cwd_file: Option<String>,
}

/// What an answer says, for the contracts.
pub enum AnswerView {
    Help,
    Version,
    Function(Shell),
    Refusal(Seq<char>),
}

pub open spec fn answer_view(a: Answered) -> AnswerView {
    match a {
        Answered::Help => AnswerView::Help,
        Answered::Version => AnswerView::Version,
        Answered::Function(s) => AnswerView::Function(s),
        Answered::Refusal(r) => AnswerView::Refusal(r@),
    }
}

pub open spec fn starts_with_text(s: Seq<char>, prefix: Seq<char>) -> bool {
    prefix.len() <= s.len() && s.take(prefix.len() as int) == prefix
}

/// What the arguments from `i` on ask for, with `directory` and `cwd_file`
/// read so far: the options in the order they come, the first answer ending
/// the reading.
pub open spec fn read_from(
    args: Seq<Seq<char>>,
    i: nat,
    directory: Option<Seq<char>>,
    cwd_file: Option<Seq<char>>,
) -> Result<(Option<Seq<char>>, Option<Seq<char>>), AnswerView>
    decreases args.len() - i,
{
    if i >= args.len() {
        Ok((directory, cwd_file))
    } else {
        let arg = args[i as int];
        let prefix = "--cwd-file="@;
        if starts_with_text(arg, prefix) {
            read_from(args, i + 1, directory, Some(arg.skip(prefix.len() as int)))
        } else if arg == "-h"@ || arg == "--help"@ {
            Err(AnswerView::Help)
        } else if arg == "-V"@ || arg == "--version"@ {
            Err(AnswerView::Version)
        } else if arg == "--init"@ {
            if i + 1 >= args.len() {
                Err(AnswerView::Refusal("--init needs a shell: bash, zsh or fish."@))
            } else {
                let shell = args[(i + 1) as int];
                if shell == "bash"@ || shell == "zsh"@ {
                    Err(AnswerView::Function(Shell::Posix))
                } else if shell == "fish"@ {
                    Err(AnswerView::Function(Shell::Fish))
                } else {
                    Err(AnswerView::Refusal("no function for "@ + shell + "; there is one for bash, zsh and fish."@))
                }
            }
        } else if arg == "--cwd-file"@ {
            if i + 1 >= args.len() {
                Err(AnswerView::Refusal("--cwd-file needs the file to write to."@))
            } else {
                read_from(args, i + 2, directory, Some(args[(i + 1) as int]))
            }
        } else if arg.len() > 0 && arg[0] == '-' {
            Err(AnswerView::Refusal("unknown option: "@ + arg + "\nTry `mula --help`."@))
        } else if directory is Some {
            Err(AnswerView::Refusal("mula opens one directory, and the other panel follows you."@))
        } else {
            read_from(args, i + 1, Some(arg), cwd_file)
        }
    }
}

fn copy_text(s: &str) -> (t: String)
    ensures
        t@ == s@,
{
    string_of(chars_of(s).as_slice())
}

fn starts_with_chars(s: &Vec<char>, prefix: &Vec<char>) -> (b: bool)
    ensures
        b == starts_with_text(s@, prefix@),
{
    if prefix.len() > s.len() {
        return false;
    }
    let mut i: usize = 0;
    while i < prefix.len()
        invariant
            prefix@.len() <= s@.len(),
            i <= prefix@.len(),
            forall|k: int| 0 <= k < i ==> s@[k] == prefix@[k],
        decreases prefix.len() - i,
    {
        if s[i] != prefix[i] {
            assert(s@.take(prefix@.len() as int)[i as int] != prefix@[i as int]);
            return false;
        }
        i += 1;
    }
    assert(s@.take(prefix@.len() as int) =~= prefix@);
    true
}

fn refusal(parts: &Vec<&str>) -> (a: Answered)
    ensures
        a matches Answered::Refusal(r) && r@ == joined_texts(parts@),
{
    let mut out: Vec<char> = Vec::new();
    let mut i: usize = 0;
    while i < parts.len()
        invariant
            i <= parts@.len(),
            out@ == joined_texts(parts@.take(i as int)),
        decreases parts.len() - i,
    {
        push_str(&mut out, parts[i]);
        assert(parts@.take(i + 1).drop_last() =~= parts@.take(i as int));
        i += 1;
    }
    assert(parts@.take(parts@.len() as int) =~= parts@);
    Answered::Refusal(string_of(out.as_slice()))
}

/// The texts of `parts` one after another.
pub open spec fn joined_texts(parts: Seq<&str>) -> Seq<char>
    decreases parts.len(),
{
    if parts.len() == 0 {
        Seq::empty()
    } else {
        joined_texts(parts.drop_last()) + parts.last()@
    }
}

/// Reads the arguments mula was started with, the program's own name left
/// off: `Ok` with what running asks for, or the answer to print instead.
pub fn read_command_line(args: &Vec<String>) -> (read: Result<Options, Answered>)
    ensures
        match read_from(args@.map_values(|a: String| a@), 0, None, None) {
            Ok((directory, cwd_file)) => read matches Ok(o) && (match o.directory {
                Some(d) => directory == Some(d@),
                None => directory is None,
            }) && (match o.cwd_file {
                Some(f) => cwd_file == Some(f@),
                None => cwd_file is None,
            }),
            Err(answer) => read matches Err(a) && answer_view(a) == answer,
        },
{
    let ghost texts = args@.map_values(|a: String| a@);
    let mut directory: Option<String> = None;
    let mut cwd_file: Option<String> = None;
    let prefix = chars_of("--cwd-file=");
    let mut i: usize = 0;
    while i < args.len()
        invariant
            i <= args@.len(),
            texts == args@.map_values(|a: String| a@),
            prefix@ == "--cwd-file="@,
            read_from(texts, 0, None, None) == read_from(
                texts,
                i as nat,
                match directory {
                    Some(d) => Some(d@),
                    None => None,
                },
                match cwd_file {
                    Some(f) => Some(f@),
                    None => None,
                },
            ),
        decreases args.len() - i,
    {
        let arg = args[i].as_str();
        assert(texts[i as int] == arg@);
        let chars = chars_of(arg);
        if starts_with_chars(&chars, &prefix) {
            let mut file: Vec<char> = Vec::new();
            let mut k = prefix.len();
            while k < chars.len()
                invariant
                    prefix@.len() <= k <= chars@.len(),
                    file@ == chars@.subrange(prefix@.len() as int, k as int),
                decreases chars.len() - k,
            {
                file.push(chars[k]);
                k += 1;
            }
            assert(file@ =~= chars@.skip(prefix@.len() as int));
            cwd_file = Some(string_of(file.as_slice()));
            i += 1;
        } else if same_text(arg, "-h") || same_text(arg, "--help") {
            return Err(Answered::Help);
        } else if same_text(arg, "-V") || same_text(arg, "--version") {
            return Err(Answered::Version);
        } else if same_text(arg, "--init") {
            if i + 1 >= args.len() {
                return Err(Answered::Refusal(copy_text("--init needs a shell: bash, zsh or fish.")));
            }
            let shell = args[i + 1].as_str();
            assert(texts[i + 1] == shell@);
            if same_text(shell, "bash") || same_text(shell, "zsh") {
                return Err(Answered::Function(Shell::Posix));
            } else if same_text(shell, "fish") {
                return Err(Answered::Function(Shell::Fish));
            } else {
                let parts = vec!["no function for ", shell, "; there is one for bash, zsh and fish."];
                let r = refusal(&parts);
                proof {
                    reveal_with_fuel(joined_texts, 4);
                    assert(parts@.take(2).drop_last() =~= parts@.take(1));
                    assert(parts@.take(1).drop_last() =~= parts@.take(0));
                    assert(parts@.drop_last() =~= parts@.take(2));
                }
                return Err(r);
            }
        } else if same_text(arg, "--cwd-file") {
            if i + 1 >= args.len() {
                return Err(Answered::Refusal(copy_text("--cwd-file needs the file to write to.")));
            }
            assert(texts[i + 1] == args@[i + 1]@);
            cwd_file = Some(copy_text(args[i + 1].as_str()));
            i += 2;
        } else if chars.len() > 0 && chars[0] == '-' {
            let parts = vec!["unknown option: ", arg, "\nTry `mula --help`."];
            let r = refusal(&parts);
            proof {
                reveal_with_fuel(joined_texts, 4);
                assert(parts@.take(2).drop_last() =~= parts@.take(1));
                assert(parts@.take(1).drop_last() =~= parts@.take(0));
                assert(parts@.drop_last() =~= parts@.take(2));
            }
            return Err(r);
        } else if directory.is_some() {
            return Err(Answered::Refusal(copy_text("mula opens one directory, and the other panel follows you.")));
        } else {
            directory = Some(copy_text(arg));
            i += 1;
        }
    }
    Ok(Options { directory, cwd_file })
}

} // verus!
