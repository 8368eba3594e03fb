//! Which program a file is handed to, and how its command line is read.

use vstd::prelude::*;

verus! {

/// Which program a file is handed to.
#[derive(Clone, Copy, Debug, PartialEq, Eq)]
pub enum Opener {
    /// `$VISUAL`, then `$EDITOR`, then `vi`.
    Edit,
    /// `$PAGER`, then `less`.
    View,
}

/// A program to run, already split into what a process needs. Nothing is ever
/// handed to a shell, and the path travels as one argument of its own.
#[derive(Clone, Debug, PartialEq, Eq)]
pub struct Program {
    pub command: Vec<u8>,
    pub args: Vec<Vec<u8>>,
}

/// Whether `b` is ASCII whitespace: space, tab, line feed, form feed or
/// carriage return.
pub open spec fn is_ascii_space(b: u8) -> bool {
    b == 0x20 || b == 0x09 || b == 0x0a || b == 0x0c || b == 0x0d
}

/// The words of `bytes`: the runs between ASCII whitespace, empty ones left
/// out, and the run still being read.
pub open spec fn words_read(bytes: Seq<u8>) -> (Seq<Seq<u8>>, Seq<u8>)
    decreases bytes.len(),
{
    if bytes.len() == 0 {
        (Seq::empty(), Seq::empty())
    } else {
        let (words, current) = words_read(bytes.drop_last());
        if is_ascii_space(bytes.last()) {
            (if current.len() > 0 { words.push(current) } else { words }, Seq::empty())
        } else {
            (words, current.push(bytes.last()))
        }
    }
}

/// Every word of `bytes`, in order.
pub open spec fn words_of(bytes: Seq<u8>) -> Seq<Seq<u8>> {
    let (words, current) = words_read(bytes);
    if current.len() > 0 { words.push(current) } else { words }
}

/// The bytes of every vector of `v`, in order.
pub open spec fn byte_strings(v: Seq<Vec<u8>>) -> Seq<Seq<u8>> {
    v.map_values(|a: Vec<u8>| a@)
}

/// Whether a variable's value names a program: it is set, and holds a word.
pub open spec fn names_program(value: Option<Vec<u8>>) -> bool {
    match value {
        Some(v) => words_of(v@).len() > 0,
        None => false,
    }
}

impl Program {
    /// Splits `spec` on ASCII whitespace: the first word is the program and
    /// the rest are arguments that go before the path. `None` when `spec`
    /// holds no word at all. Split over bytes, so a program path that is not
    /// UTF-8 survives it.
    pub fn parse(spec: &[u8]) -> (p: Option<Program>)
        ensures
            words_of(spec@).len() == 0 ==> p is None,
            words_of(spec@).len() > 0 ==> (p matches Some(program) && program.command@ == words_of(spec@)[0]
                && byte_strings(program.args@) == words_of(spec@).drop_first()),
    {
        let mut words: Vec<Vec<u8>> = Vec::new();
        let mut current: Vec<u8> = Vec::new();
        let mut i: usize = 0;
        while i < spec.len()
            invariant
                i <= spec@.len(),
                byte_strings(words@) == words_read(spec@.take(i as int)).0,
                current@ == words_read(spec@.take(i as int)).1,
            decreases spec.len() - i,
        {
            assert(spec@.take(i + 1).drop_last() =~= spec@.take(i as int));
            let b = spec[i];
            if b == 0x20 || b == 0x09 || b == 0x0a || b == 0x0c || b == 0x0d {
                if current.len() > 0 {
                    let ghost before = words@;
                    words.push(current);
                    assert(byte_strings(words@) =~= byte_strings(before).push(
                        words@.last()@,
                    ));
                }
                current = Vec::new();
            } else {
                current.push(b);
            }
            i += 1;
        }
        assert(spec@.take(spec.len() as int) =~= spec@);
        if current.len() > 0 {
            let ghost before = words@;
            words.push(current);
            assert(byte_strings(words@) =~= byte_strings(before).push(
                words@.last()@,
            ));
        }
        if words.len() == 0 {
            return None;
        }
        let ghost all = byte_strings(words@);
        let command = words.remove(0);
        assert(byte_strings(words@) =~= all.drop_first());
        Some(Program { command, args: words })
    }

    /// A program run with no arguments of its own.
    pub fn of(command: Vec<u8>) -> (p: Program)
        ensures
            p.command@ == command@,
            p.args@.len() == 0,
    {
        Program { command, args: Vec::new() }
    }
}

impl Opener {
    /// The program used when no variable names one.
    pub open spec fn fallback(self) -> Seq<u8> {
        match self {
            Opener::Edit => seq![0x76u8, 0x69u8],
            Opener::View => seq![0x6cu8, 0x65u8, 0x73u8, 0x73u8],
        }
    }

    /// The variables consulted, in order: `VISUAL` then `EDITOR` to edit,
    /// `PAGER` to view.
    pub fn variables(self) -> (names: Vec<&'static str>)
        ensures
            self == Opener::Edit ==> names@.len() == 2 && names@[0]@ == "VISUAL"@ && names@[1]@ == "EDITOR"@,
            self == Opener::View ==> names@.len() == 1 && names@[0]@ == "PAGER"@,
    {
        match self {
            Opener::Edit => vec!["VISUAL", "EDITOR"],
            Opener::View => vec!["PAGER"],
        }
    }

    /// The program to run, given what each of [`Opener::variables`] holds
    /// (`None` for one that is unset), in the same order. A variable holding
    /// nothing but whitespace names no program and is passed over like an
    /// unset one; when none names one, the fallback is run.
    pub fn program(self, values: &Vec<Option<Vec<u8>>>) -> (p: Program)
        ensures
            (exists|i: int| 0 <= i < values@.len() && #[trigger] names_program(values@[i])) ==> exists|i: int|
                0 <= i < values@.len() && #[trigger] names_program(values@[i]) && p.command@ == words_of(
                values@[i]->Some_0@)[0] && byte_strings(p.args@) == words_of(values@[i]->Some_0@).drop_first()
                && forall|j: int| 0 <= j < i ==> !#[trigger] names_program(values@[j]),
            !(exists|i: int| 0 <= i < values@.len() && #[trigger] names_program(values@[i])) ==> p.command@
                == self.fallback() && p.args@.len() == 0,
    {
        let mut i: usize = 0;
        while i < values.len()
            invariant
                i <= values@.len(),
                forall|j: int| 0 <= j < i ==> !#[trigger] names_program(values@[j]),
            decreases values.len() - i,
        {
            match &values[i] {
                Some(v) => match Program::parse(v.as_slice()) {
                    Some(p) => {
                        assert(names_program(values@[i as int]));
                        return p;
                    },
                    None => {},
                },
                None => {},
            }
            i += 1;
        }
        match self {
            Opener::Edit => Program::of(vec![0x76u8, 0x69u8]),
            Opener::View => Program::of(vec![0x6cu8, 0x65u8, 0x73u8, 0x73u8]),
        }
    }
}

/// The bytes of an ASCII text.
pub open spec fn ascii_bytes(text: Seq<char>) -> Seq<u8> {
    Seq::new(text.len(), |i: int| text[i] as u8)
}

/// With no variable naming a program, editing runs `vi` and viewing runs
/// `less`, the programs every system is expected to have.
pub proof fn editing_falls_back_to_vi_and_viewing_to_less()
    ensures
        Opener::Edit.fallback() == ascii_bytes("vi"@),
        Opener::View.fallback() == ascii_bytes("less"@),
{
    reveal_strlit("vi");
    reveal_strlit("less");
    assert(Opener::Edit.fallback() =~= ascii_bytes("vi"@));
    assert(Opener::View.fallback() =~= ascii_bytes("less"@));
}

} // verus!
