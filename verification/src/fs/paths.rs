//! Paths read the way `Path::components` reads them, for the checks that
//! decide by spelling rather than by asking the disk: whether a link written
//! out of an archive points somewhere under the directory it is unpacked
//! into, whether a transfer would land inside its own source, and which
//! numbered name a kept copy goes in under.

use vstd::prelude::*;

use crate::text::{chars_of, push_decimal, decimal_of, string_of};

verus! {

/// What a path starts with before its first named component: the root, a
/// `.` that `Path::components` keeps as the current directory, or nothing.
#[derive(Clone, Copy, Debug, PartialEq, Eq, Structural)]
pub enum Lead {
    Root,
    Dot,
    Nothing,
}

/// The lead of `p`.
pub open spec fn lead_of(p: Seq<char>) -> Lead {
    if p.len() > 0 && p[0] == '/' {
        Lead::Root
    } else if p.len() > 0 && p[0] == '.' && (p.len() == 1 || p[1] == '/') {
        Lead::Dot
    } else {
        Lead::Nothing
    }
}

/// Whether a piece between slashes is a component of its own: neither empty
/// nor `.`, both of which `Path::components` passes over after the lead.
pub open spec fn keeps(piece: Seq<char>) -> bool {
    piece.len() > 0 && piece != seq!['.']
}

/// A left-to-right reading of `p`: the components finished so far and the
/// piece still being read.
pub open spec fn parts_read(p: Seq<char>) -> (Seq<Seq<char>>, Seq<char>)
    decreases p.len(),
{
    if p.len() == 0 {
        (Seq::empty(), Seq::empty())
    } else {
        let (parts, current) = parts_read(p.drop_last());
        if p.last() == '/' {
            (if keeps(current) { parts.push(current) } else { parts }, Seq::empty())
        } else {
            (parts, current.push(p.last()))
        }
    }
}

/// The named components of `p` in order, `..` among them.
pub open spec fn parts_of(p: Seq<char>) -> Seq<Seq<char>> {
    let (parts, current) = parts_read(p);
    if keeps(current) { parts.push(current) } else { parts }
}

/// A path as its components: the lead and the named ones after it.
pub type PathParts = (Lead, Seq<Seq<char>>);

pub open spec fn path_parts(p: Seq<char>) -> PathParts {
    (lead_of(p), parts_of(p))
}

/// `PathBuf::pop`: the path without its last component, or `None` where it
/// has no parent (the root alone, or nothing at all). A lone `.` gives way to
/// the empty path.
pub open spec fn popped(at: PathParts) -> Option<PathParts> {
    if at.1.len() > 0 {
        Some((at.0, at.1.drop_last()))
    } else if at.0 == Lead::Dot {
        Some((Lead::Nothing, Seq::empty()))
    } else {
        None
    }
}

/// Where following the components `steps` from `at` leads, spelling rather
/// than resolving: `..` takes one off, anything else goes on, and climbing
/// past the top fails.
pub open spec fn walked(at: PathParts, steps: Seq<Seq<char>>) -> Option<PathParts>
    decreases steps.len(),
{
    if steps.len() == 0 {
        Some(at)
    } else {
        match walked(at, steps.drop_last()) {
            None => None,
            Some(here) => if steps.last() == seq!['.', '.'] {
                popped(here)
            } else {
                Some((here.0, here.1.push(steps.last())))
            },
        }
    }
}

/// A walk that climbed out of the top stays out, whatever steps follow.
proof fn lemma_stuck(at: PathParts, steps: Seq<Seq<char>>, n: int)
    requires
        0 <= n <= steps.len(),
        walked(at, steps.take(n)) is None,
    ensures
        walked(at, steps) is None,
    decreases steps.len() - n,
{
    if n < steps.len() {
        assert(steps.take(n + 1).drop_last() =~= steps.take(n));
        lemma_stuck(at, steps, n + 1);
    } else {
        assert(steps.take(n) =~= steps);
    }
}

/// `Path::starts_with`: `base` leads the same way and its components begin
/// those of `p`.
pub open spec fn begins_with(p: PathParts, base: PathParts) -> bool {
    &&& p.0 == base.0
    &&& base.1.len() <= p.1.len()
    &&& p.1.take(base.1.len() as int) == base.1
}

/// Whether following `target` from the directory `from` lands under `root`,
/// by spelling: a target that starts at the root is never inside, and one
/// that climbs out of `from` altogether is not either.
pub open spec fn inside_spec(root: Seq<char>, from: Seq<char>, target: Seq<char>) -> bool {
    lead_of(target) != Lead::Root && match walked(path_parts(from), parts_of(target)) {
        Some(at) => begins_with(at, path_parts(root)),
        None => false,
    }
}

/// The lead of `p`.
pub fn lead(p: &Vec<char>) -> (l: Lead)
    ensures
        l == lead_of(p@),
{
    if p.len() > 0 && p[0] == '/' {
        Lead::Root
    } else if p.len() > 0 && p[0] == '.' && (p.len() == 1 || p[1] == '/') {
        Lead::Dot
    } else {
        Lead::Nothing
    }
}

/// Whether `piece` is a component of its own.
fn kept(piece: &Vec<char>) -> (k: bool)
    ensures
        k == keeps(piece@),
{
    if piece.len() == 1 && piece[0] == '.' {
        assert(piece@ =~= seq!['.']);
        false
    } else {
        assert(piece@ != seq!['.']) by {
            if piece@ == seq!['.'] {
                assert(piece@[0] == '.');
            }
        }
        piece.len() > 0
    }
}

/// The named components of `p`.
pub fn parts(p: &Vec<char>) -> (ps: Vec<Vec<char>>)
    ensures
        ps@.map_values(|c: Vec<char>| c@) == parts_of(p@),
{
    let mut ps: Vec<Vec<char>> = Vec::new();
    let mut current: Vec<char> = Vec::new();
    let mut i: usize = 0;
    while i < p.len()
        invariant
            i <= p@.len(),
            (ps@.map_values(|c: Vec<char>| c@), current@) == parts_read(p@.take(i as int)),
        decreases p.len() - i,
    {
        assert(p@.take(i + 1).drop_last() =~= p@.take(i as int));
        let c = p[i];
        if c == '/' {
            if kept(&current) {
                let mut done: Vec<char> = Vec::new();
                std::mem::swap(&mut done, &mut current);
                let ghost before = ps@;
                ps.push(done);
                assert(ps@.map_values(|c: Vec<char>| c@) =~= before.map_values(|c: Vec<char>| c@).push(done@));
            } else {
                current = Vec::new();
            }
        } else {
            current.push(c);
        }
        i += 1;
    }
    assert(p@.take(p@.len() as int) =~= p@);
    if kept(&current) {
        let ghost before = ps@;
        ps.push(current);
        assert(ps@.map_values(|c: Vec<char>| c@) =~= before.map_values(|c: Vec<char>| c@).push(current@));
    }
    ps
}

/// Whether two spellings are the same.
fn same(a: &Vec<char>, b: &Vec<char>) -> (s: bool)
    ensures
        s == (a@ == b@),
{
    if a.len() != b.len() {
        return false;
    }
    let mut i: usize = 0;
    while i < a.len()
        invariant
            i <= a@.len(),
            a@.len() == b@.len(),
            a@.take(i as int) == b@.take(i as int),
        decreases a.len() - i,
    {
        if a[i] != b[i] {
            return false;
        }
        assert(a@.take(i + 1) =~= a@.take(i as int).push(a@[i as int]));
        assert(b@.take(i + 1) =~= b@.take(i as int).push(b@[i as int]));
        i += 1;
    }
    assert(a@ =~= a@.take(i as int));
    assert(b@ =~= b@.take(i as int));
    true
}

/// Whether `p` begins with `base`, component by component.
fn begins(p_lead: Lead, p: &Vec<Vec<char>>, base_lead: Lead, base: &Vec<Vec<char>>) -> (b: bool)
    ensures
        b == begins_with((p_lead, p@.map_values(|c: Vec<char>| c@)), (base_lead, base@.map_values(|c: Vec<char>| c@))),
{
    let ghost ps = p@.map_values(|c: Vec<char>| c@);
    let ghost bs = base@.map_values(|c: Vec<char>| c@);
    if p_lead != base_lead || base.len() > p.len() {
        return false;
    }
    let mut i: usize = 0;
    while i < base.len()
        invariant
            i <= base@.len(),
            base@.len() <= p@.len(),
            ps == p@.map_values(|c: Vec<char>| c@),
            bs == base@.map_values(|c: Vec<char>| c@),
            ps.take(i as int) == bs.take(i as int),
        decreases base.len() - i,
    {
        if !same(&p[i], &base[i]) {
            assert(ps.take(bs.len() as int)[i as int] != bs[i as int]);
            return false;
        }
        assert(ps.take(i + 1) =~= ps.take(i as int).push(ps[i as int]));
        assert(bs.take(i + 1) =~= bs.take(i as int).push(bs[i as int]));
        i += 1;
    }
    assert(bs =~= bs.take(i as int));
    true
}

/// Whether following `target` from the directory `from` lands under `root`.
///
/// Worked out by spelling the path rather than by resolving it: a link may
/// point at something that is not there yet, so there is nothing to
/// canonicalise. Unpacking creates the directories it walks through one by
/// one, refusing anything in the way that is not a directory, which is what
/// makes the spelling trustworthy.
pub fn inside(root: &str, from: &str, target: &str) -> (r: bool)
    ensures
        r == inside_spec(root@, from@, target@),
{
    let target_chars = chars_of(target);
    if lead(&target_chars) == Lead::Root {
        return false;
    }
    let from_chars = chars_of(from);
    let steps = parts(&target_chars);
    let ghost ss = steps@.map_values(|c: Vec<char>| c@);
    let mut at_lead = lead(&from_chars);
    let mut at = parts(&from_chars);
    let mut i: usize = 0;
    assert(ss.take(0) =~= Seq::<Seq<char>>::empty());
    while i < steps.len()
        invariant
            i <= steps@.len(),
            ss == steps@.map_values(|c: Vec<char>| c@),
            ss == parts_of(target@),
            lead_of(target@) != Lead::Root,
            walked(path_parts(from@), ss.take(i as int)) == Some((at_lead, at@.map_values(|c: Vec<char>| c@))),
        decreases steps.len() - i,
    {
        assert(ss.take(i + 1).drop_last() =~= ss.take(i as int));
        let ghost here = (at_lead, at@.map_values(|c: Vec<char>| c@));
        let step = &steps[i];
        if step.len() == 2 && step[0] == '.' && step[1] == '.' {
            assert(ss[i as int] =~= seq!['.', '.']);
            if at.len() > 0 {
                let ghost before = at@;
                at.pop();
                assert(at@.map_values(|c: Vec<char>| c@) =~= before.map_values(|c: Vec<char>| c@).drop_last());
            } else if at_lead == Lead::Dot {
                at_lead = Lead::Nothing;
                assert(at@.map_values(|c: Vec<char>| c@) =~= Seq::<Seq<char>>::empty());
            } else {
                proof {
                    lemma_stuck(path_parts(from@), ss, i + 1);
                }
                return false;
            }
        } else {
            assert(ss[i as int] != seq!['.', '.']) by {
                if ss[i as int] == seq!['.', '.'] {
                    assert(steps@[i as int]@[0] == '.' && steps@[i as int]@[1] == '.');
                }
            }
            let ghost before = at@;
            at.push(step.clone());
            assert(at@.map_values(|c: Vec<char>| c@) =~= before.map_values(|c: Vec<char>| c@).push(ss[i as int]));
        }
        i += 1;
    }
    assert(ss.take(ss.len() as int) =~= ss);
    let root_chars = chars_of(root);
    let root_lead = lead(&root_chars);
    let root_parts = parts(&root_chars);
    begins(at_lead, &at, root_lead, &root_parts)
}

/// Whether `path` lies at or under `base`, as `Path::starts_with` compares
/// them. A transfer whose destination does is one writing into its own
/// source; the paths compared are the canonical ones, so neither a symlink
/// nor a `..` can sidestep it.
pub fn starts_with(path: &str, base: &str) -> (r: bool)
    ensures
        r == begins_with(path_parts(path@), path_parts(base@)),
{
    let p = chars_of(path);
    let b = chars_of(base);
    let p_parts = parts(&p);
    let b_parts = parts(&b);
    begins(lead(&p), &p_parts, lead(&b), &b_parts)
}

/// How many numbered names keeping both tries before it gives up.
pub const KEEP_BOTH_LIMIT: u32 = 1000;

/// Where the last `.` of `name` is, if it has one.
pub open spec fn last_dot(name: Seq<char>) -> Option<int>
    decreases name.len(),
{
    if name.len() == 0 {
        None
    } else if name.last() == '.' {
        Some(name.len() - 1)
    } else {
        last_dot(name.drop_last())
    }
}

/// Where a number goes into `name`: before its last dot, or at the end when
/// it has no dot or its only dot starts it, which is where `Path::extension`
/// splits a name.
pub open spec fn insertion_of(name: Seq<char>) -> int {
    match last_dot(name) {
        Some(dot) => if dot == 0 { name.len() as int } else { dot },
        None => name.len() as int,
    }
}

/// `name` with `(n)` written in where the number goes: `notes.tar.gz` becomes
/// `notes.tar(1).gz`, and `.bashrc` becomes `.bashrc(1)`.
pub open spec fn numbered_spec(name: Seq<char>, n: nat) -> Seq<char> {
    let at = insertion_of(name);
    name.take(at) + seq!['('] + decimal_of(n) + seq![')'] + name.skip(at)
}

/// Components joined with `/` between them.
pub open spec fn joined(parts: Seq<Seq<char>>) -> Seq<char>
    decreases parts.len(),
{
    if parts.len() == 0 {
        Seq::empty()
    } else if parts.len() == 1 {
        parts[0]
    } else {
        joined(parts.drop_last()) + seq!['/'] + parts.last()
    }
}

/// A path spelled from its components.
pub open spec fn spelled(lead: Lead, parts: Seq<Seq<char>>) -> Seq<char> {
    let head = match lead {
        Lead::Root => seq!['/'],
        Lead::Dot => seq!['.', '/'],
        Lead::Nothing => Seq::empty(),
    };
    head + joined(parts)
}

/// `to` with its last component replaced by `name`, spelled from its
/// components: the path `PathBuf::with_file_name` gives.
pub open spec fn renamed(to: Seq<char>, name: Seq<char>) -> Seq<char> {
    spelled(lead_of(to), parts_of(to).drop_last().push(name))
}

/// Where the number goes into `name`, counted in characters.
pub fn insertion_point(name: &Vec<char>) -> (at: usize)
    ensures
        at == insertion_of(name@),
        at <= name@.len(),
{
    let mut i: usize = name.len();
    assert(name@.take(i as int) =~= name@);
    while i > 0 && name[i - 1] != '.'
        invariant
            i <= name@.len(),
            last_dot(name@) == last_dot(name@.take(i as int)),
        decreases i,
    {
        assert(name@.take(i as int).drop_last() =~= name@.take(i - 1));
        i -= 1;
    }
    if i == 0 {
        assert(name@.take(0) =~= Seq::<char>::empty());
        name.len()
    } else {
        assert(name@.take(i as int).last() == name@[i - 1]);
        if i - 1 == 0 { name.len() } else { i - 1 }
    }
}

/// `name` numbered with `n`.
pub fn numbered(name: &Vec<char>, n: u32) -> (out: Vec<char>)
    ensures
        out@ == numbered_spec(name@, n as nat),
{
    let at = insertion_point(name);
    let mut out: Vec<char> = Vec::new();
    let mut i: usize = 0;
    while i < at
        invariant
            i <= at,
            at <= name@.len(),
            out@ == name@.take(i as int),
        decreases at - i,
    {
        out.push(name[i]);
        assert(name@.take(i + 1) =~= name@.take(i as int).push(name@[i as int]));
        i += 1;
    }
    out.push('(');
    push_decimal(&mut out, n as u64);
    out.push(')');
    let ghost head = out@;
    while i < name.len()
        invariant
            at <= i <= name@.len(),
            out@ == head + name@.subrange(at as int, i as int),
        decreases name.len() - i,
    {
        out.push(name[i]);
        assert(name@.subrange(at as int, i + 1) =~= name@.subrange(at as int, i as int).push(name@[i as int]));
        i += 1;
    }
    assert(name@.subrange(at as int, name@.len() as int) =~= name@.skip(at as int));
    out
}

/// The path with `lead` and `parts`, spelled out.
pub fn spell(lead: Lead, parts: &Vec<Vec<char>>) -> (out: Vec<char>)
    ensures
        out@ == spelled(lead, parts@.map_values(|c: Vec<char>| c@)),
{
    let ghost ps = parts@.map_values(|c: Vec<char>| c@);
    let mut out: Vec<char> = Vec::new();
    match lead {
        Lead::Root => out.push('/'),
        Lead::Dot => {
            out.push('.');
            out.push('/');
        },
        Lead::Nothing => {},
    }
    let ghost head = out@;
    assert(head == spelled(lead, Seq::empty())) by {
        assert(joined(Seq::<Seq<char>>::empty()) =~= Seq::<char>::empty());
        assert(head =~= spelled(lead, Seq::empty()));
    }
    let mut i: usize = 0;
    while i < parts.len()
        invariant
            i <= parts@.len(),
            ps == parts@.map_values(|c: Vec<char>| c@),
            out@ == head + joined(ps.take(i as int)),
        decreases parts.len() - i,
    {
        let ghost before = out@;
        if i > 0 {
            out.push('/');
        }
        let mut part = parts[i].clone();
        out.append(&mut part);
        assert(ps.take(i + 1).drop_last() =~= ps.take(i as int));
        if i == 0 {
            assert(joined(ps.take(1)) == ps[0]);
            assert(joined(ps.take(0)) =~= Seq::<char>::empty());
            assert(out@ =~= head + joined(ps.take(i + 1)));
        } else {
            assert(out@ =~= head + joined(ps.take(i + 1)));
        }
        i += 1;
    }
    assert(ps.take(ps.len() as int) =~= ps);
    match lead {
        Lead::Root => assert(out@ =~= spelled(lead, ps)),
        Lead::Dot => assert(out@ =~= spelled(lead, ps)),
        Lead::Nothing => assert(out@ =~= spelled(lead, ps)),
    }
    out
}

/// What trying to take a name on the disk came to.
#[derive(Debug)]
pub enum Claimed {
    /// The name was free, and is now taken.
    Taken,
    /// Something is already there.
    Exists,
    /// Anything else, in words.
    Failed(String),
}

/// Why no numbered name could be taken.
#[derive(Debug, PartialEq, Eq)]
pub enum ClaimError {
    /// The path has no file name to number.
    NoName,
    /// Every numbered name up to the limit is taken.
    AllTaken,
    /// Taking a name failed for another reason.
    Failed(String),
}

/// The `n`-th numbered name beside `to`.
pub open spec fn candidate(to: Seq<char>, n: nat) -> Seq<char> {
    renamed(to, numbered_spec(parts_of(to).last(), n))
}

/// `take` was handed the `n`-th numbered name beside `to` and gave `answer`.
pub open spec fn answered<F: Fn(&str) -> Claimed>(take: F, to: Seq<char>, n: nat, answer: Claimed) -> bool {
    exists|s: &str| s@ == candidate(to, n) && #[trigger] call_ensures(take, (s,), answer)
}

/// `take` found every numbered name beside `to` below the `n`-th one taken.
pub open spec fn taken_below<F: Fn(&str) -> Claimed>(take: F, to: Seq<char>, n: nat) -> bool {
    forall|k: nat| 1 <= k < n ==> #[trigger] answered(take, to, k, Claimed::Exists)
}

/// Takes the first free numbered name beside `to`, by handing each candidate
/// in turn to `take`, which asks whether the name is free and takes it in one
/// go (asking first and creating after leaves a gap for another writer to
/// step into). The number goes where the name's extension starts.
///
/// The candidates go to `take` in order, from the first: the name that comes
/// back is the first one `take` answered as taken by this call, every one
/// before it having been found there already; the first failure is passed
/// back as it came; and the limit is reached only once `take` has found every
/// candidate up to it already there.
pub fn claim_free_name<F: Fn(&str) -> Claimed>(to: &str, take: &F) -> (r: Result<String, ClaimError>)
    requires
        forall|p: &str| #[trigger] take.requires((p,)),
    ensures
        (r == Err::<String, ClaimError>(ClaimError::NoName)) <==> file_name_of_parts(to@) is None,
        r matches Ok(p) ==> exists|n: nat| {
            &&& 1 <= n <= KEEP_BOTH_LIMIT
            &&& #[trigger] candidate(to@, n) == p@
            &&& answered(*take, to@, n, Claimed::Taken)
            &&& taken_below(*take, to@, n)
        },
        r matches Err(ClaimError::Failed(e)) ==> exists|n: nat| {
            &&& 1 <= n <= KEEP_BOTH_LIMIT
            &&& #[trigger] answered(*take, to@, n, Claimed::Failed(e))
            &&& taken_below(*take, to@, n)
        },
        r == Err::<String, ClaimError>(ClaimError::AllTaken) ==> taken_below(*take, to@, (KEEP_BOTH_LIMIT + 1) as nat),
{
    let to_chars = chars_of(to);
    let to_parts = parts(&to_chars);
    let ghost ps = to_parts@.map_values(|c: Vec<char>| c@);
    if to_parts.len() == 0 {
        return Err(ClaimError::NoName);
    }
    let last = to_parts.len() - 1;
    let name = to_parts[last].clone();
    if name.len() == 2 && name[0] == '.' && name[1] == '.' {
        assert(name@ =~= seq!['.', '.']);
        return Err(ClaimError::NoName);
    }
    assert(name@ != seq!['.', '.']) by {
        if name@ == seq!['.', '.'] {
            assert(name@[0] == '.' && name@[1] == '.');
        }
    }
    let to_lead = lead(&to_chars);
    let mut dir = to_parts;
    dir.pop();
    let mut n: u32 = 1;
    while n <= KEEP_BOTH_LIMIT
        invariant
            1 <= n <= KEEP_BOTH_LIMIT + 1,
            forall|p: &str| #[trigger] take.requires((p,)),
            ps == parts_of(to@),
            ps.len() > 0,
            name@ == ps.last(),
            dir@.map_values(|c: Vec<char>| c@) == ps.drop_last(),
            to_lead == lead_of(to@),
            file_name_of_parts(to@) is Some,
            taken_below(*take, to@, n as nat),
        decreases KEEP_BOTH_LIMIT + 1 - n,
    {
        let mut candidate_parts = dir.clone();
        let ghost before = candidate_parts@;
        assert(before.map_values(|c: Vec<char>| c@) =~= dir@.map_values(|c: Vec<char>| c@));
        candidate_parts.push(numbered(&name, n));
        assert(candidate_parts@.map_values(|c: Vec<char>| c@) =~= ps.drop_last().push(numbered_spec(name@, n as nat)));
        let spelt = string_of(spell(to_lead, &candidate_parts).as_slice());
        assert(spelt@ == candidate(to@, n as nat));
        let asked = spelt.as_str();
        let answer = take(asked);
        proof {
            assert(asked@ == candidate(to@, n as nat) && call_ensures(*take, (asked,), answer));
            assert(answered(*take, to@, n as nat, answer));
        }
        match answer {
            Claimed::Taken => {
                return Ok(spelt);
            },
            Claimed::Exists => {},
            Claimed::Failed(e) => {
                let r = Err(ClaimError::Failed(e));
                assert(answered(*take, to@, n as nat, Claimed::Failed(e)));
                assert(r matches Err(ClaimError::Failed(f)) && f == e);
                return r;
            },
        }
        assert(taken_below(*take, to@, (n + 1) as nat)) by {
            assert forall|k: nat| 1 <= k < n + 1 implies #[trigger] answered(*take, to@, k, Claimed::Exists) by {
                if k < n {
                    assert(answered(*take, to@, k, Claimed::Exists));
                }
            }
        }
        n += 1;
    }
    Err(ClaimError::AllTaken)
}

/// The last component of `p` when it names something: the last of its parts,
/// unless there are none or it is `..`.
pub open spec fn file_name_of_parts(p: Seq<char>) -> Option<Seq<char>> {
    let ps = parts_of(p);
    if ps.len() == 0 || ps.last() == seq!['.', '.'] {
        None
    } else {
        Some(ps.last())
    }
}

/// `Path::parent`, spelled from its components: the path without its last
/// component, or `None` for the root alone and for the empty path.
pub open spec fn parent_of(p: Seq<char>) -> Option<Seq<char>> {
    match popped(path_parts(p)) {
        Some(at) => Some(spelled(at.0, at.1)),
        None => None,
    }
}

/// The directory holding `path`, spelled from its components, or `None` where
/// it has none.
pub fn parent(path: &str) -> (p: Option<String>)
    ensures
        match p {
            Some(s) => parent_of(path@) == Some(s@),
            None => parent_of(path@) is None,
        },
{
    let chars = chars_of(path);
    let mut ps = parts(&chars);
    let l = lead(&chars);
    if ps.len() > 0 {
        let ghost before = ps@;
        ps.pop();
        assert(ps@.map_values(|c: Vec<char>| c@) =~= before.map_values(|c: Vec<char>| c@).drop_last());
        Some(string_of(spell(l, &ps).as_slice()))
    } else if l == Lead::Dot {
        assert(ps@.map_values(|c: Vec<char>| c@) =~= Seq::<Seq<char>>::empty());
        Some(string_of(spell(Lead::Nothing, &ps).as_slice()))
    } else {
        None
    }
}

/// Whether `a` and `b` name the same path, as `Path`'s `==` compares them:
/// component by component.
pub fn same_path(a: &str, b: &str) -> (same: bool)
    ensures
        same == (path_parts(a@) == path_parts(b@)),
{
    let x = chars_of(a);
    let y = chars_of(b);
    let xs = parts(&x);
    let ys = parts(&y);
    let ghost xv = xs@.map_values(|c: Vec<char>| c@);
    let ghost yv = ys@.map_values(|c: Vec<char>| c@);
    if lead(&x) != lead(&y) || xs.len() != ys.len() {
        assert(xv.len() == xs@.len() && yv.len() == ys@.len());
        return false;
    }
    let r = begins(lead(&x), &xs, lead(&y), &ys);
    proof {
        assert(xv.take(yv.len() as int) =~= xv);
        if r {
            assert(xv =~= yv);
        }
    }
    r
}

/// Whether an item at `from` is already where a transfer to `to` would put
/// it: it has no directory above it, or the same one `to` has, compared
/// component by component.
pub open spec fn stays_put_spec(from: Seq<char>, to: Seq<char>) -> bool {
    match parent_of(from) {
        None => true,
        Some(p) => match parent_of(to) {
            Some(q) => path_parts(p) == path_parts(q),
            None => false,
        },
    }
}

/// Whether an item at `from` is already where a transfer to `to` would put
/// it, so that there is nothing to do for it.
pub fn stays_put(from: &str, to: &str) -> (b: bool)
    ensures
        b == stays_put_spec(from@, to@),
{
    match parent(from) {
        None => true,
        Some(p) => match parent(to) {
            Some(q) => same_path(p.as_str(), q.as_str()),
            None => false,
        },
    }
}

} // verus!
