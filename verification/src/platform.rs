//! Target platforms, and the plain descriptions of processes to run and
//! paths to look up that the library hands to its host.

use vstd::prelude::*;

verus! {

/// Operating system the client runs on.
#[derive(Clone, Copy, PartialEq, Eq, Structural)]
pub enum Platform {
    Windows,
    MacOs,
    Linux,
}

/// Processor architecture the client runs on.
#[derive(Clone, Copy, PartialEq, Eq, Structural)]
pub enum Arch {
    X86_64,
    Aarch64,
    Other,
}

/// A process to start: program, arguments, extra environment variables and
/// text written to its standard input.
pub struct ProcessCommand {
    pub program: String,
    pub args: Vec<String>,
    pub env: Vec<(String, String)>,
    pub stdin: Option<String>,
}

/// Mathematical view of [`ProcessCommand`].
pub struct CommandView {
    pub program: Seq<char>,
    pub args: Seq<Seq<char>>,
    pub env: Seq<(Seq<char>, Seq<char>)>,
    pub stdin: Option<Seq<char>>,
}

/// Views of a list of strings.
pub open spec fn strings_view(v: Seq<String>) -> Seq<Seq<char>> {
    v.map_values(|s: String| s@)
}

/// Views of a list of string pairs.
pub open spec fn pairs_view(v: Seq<(String, String)>) -> Seq<(Seq<char>, Seq<char>)> {
    v.map_values(|p: (String, String)| (p.0@, p.1@))
}

impl View for ProcessCommand {
    type V = CommandView;

    open spec fn view(&self) -> CommandView {
        CommandView {
            program: self.program@,
            args: strings_view(self.args@),
            env: pairs_view(self.env@),
            stdin: match self.stdin {
                Some(s) => Some(s@),
                None => None,
            },
        }
    }
}

/// A command with arguments only.
pub open spec fn command_view(program: Seq<char>, args: Seq<Seq<char>>) -> CommandView {
    CommandView { program, args, env: Seq::empty(), stdin: None }
}

/// Views of a list of commands.
pub open spec fn commands_view(v: Seq<ProcessCommand>) -> Seq<CommandView> {
    v.map_values(|c: ProcessCommand| c@)
}

/// Copies a list of string slices into owned strings.
pub fn owned_strings(v: &[&str]) -> (res: Vec<String>)
    ensures
        strings_view(res@) == v@.map_values(|s: &str| s@),
{
    let mut out: Vec<String> = Vec::new();
    let mut i: usize = 0;
    while i < v.len()
        invariant
            i <= v@.len(),
            out@.len() == i,
            strings_view(out@) == v@.subrange(0, i as int).map_values(|s: &str| s@),
        decreases v@.len() - i,
    {
        let ghost before = out@;
        out.push(String::from_str(v[i]));
        proof {
            let target = v@.subrange(0, i + 1).map_values(|s: &str| s@);
            assert forall|j: int| 0 <= j < target.len() implies strings_view(out@)[j] == target[j] by {
                if j < i {
                    assert(out@[j] == before[j]);
                    assert(strings_view(before)[j] == v@.subrange(0, i as int).map_values(|s: &str| s@)[j]);
                }
            }
            assert(strings_view(out@) =~= target);
        }
        i = i + 1;
    }
    assert(v@.subrange(0, v@.len() as int) =~= v@);
    out
}

/// A command with the given arguments and no environment or input.
pub fn simple_command(program: &str, args: &[&str]) -> (res: ProcessCommand)
    ensures
        res@ == command_view(program@, args@.map_values(|s: &str| s@)),
{
    let res = ProcessCommand {
        program: String::from_str(program),
        args: owned_strings(args),
        env: Vec::new(),
        stdin: None,
    };
    assert(pairs_view(res.env@) =~= Seq::empty());
    res
}

/// Where a path starts before its parts are joined on.
pub enum PathBase {
    /// A fixed path.
    Fixed(String),
    /// The user's home directory; the path does not exist without one.
    Home,
    /// The user's home directory, or the empty path where there is none.
    HomeOrEmpty,
    /// The value of an environment variable; the path does not exist without it.
    Env(String),
    /// The value of an environment variable, or the empty path where it is unset.
    EnvOrEmpty(String),
}

/// A path: a base joined with parts in order.
pub struct PathSpec {
    pub base: PathBase,
    pub parts: Vec<String>,
}

/// Mathematical view of [`PathBase`].
pub enum PathBaseView {
    Fixed(Seq<char>),
    Home,
    HomeOrEmpty,
    Env(Seq<char>),
    EnvOrEmpty(Seq<char>),
}

/// Mathematical view of [`PathSpec`].
pub struct PathView {
    pub base: PathBaseView,
    pub parts: Seq<Seq<char>>,
}

impl View for PathSpec {
    type V = PathView;

    open spec fn view(&self) -> PathView {
        PathView {
            base: match self.base {
                PathBase::Fixed(s) => PathBaseView::Fixed(s@),
                PathBase::Home => PathBaseView::Home,
                PathBase::HomeOrEmpty => PathBaseView::HomeOrEmpty,
                PathBase::Env(s) => PathBaseView::Env(s@),
                PathBase::EnvOrEmpty(s) => PathBaseView::EnvOrEmpty(s@),
            },
            parts: strings_view(self.parts@),
        }
    }
}

/// Views of a list of paths.
pub open spec fn paths_view(v: Seq<PathSpec>) -> Seq<PathView> {
    v.map_values(|p: PathSpec| p@)
}

/// A path from a base and parts.
pub fn path_spec(base: PathBase, parts: &[&str]) -> (res: PathSpec)
    ensures
        res.base == base,
        strings_view(res.parts@) == parts@.map_values(|s: &str| s@),
{
    PathSpec { base, parts: owned_strings(parts) }
}

/// Index of the first `true` in `exists`.
pub open spec fn first_existing_index(exists: Seq<bool>) -> Option<int>
    decreases exists.len(),
{
    if exists.len() == 0 {
        None
    } else if exists[0] {
        Some(0)
    } else {
        match first_existing_index(exists.drop_first()) {
            Some(i) => Some(i + 1),
            None => None,
        }
    }
}

proof fn lemma_first_existing_index(exists: Seq<bool>, i: int)
    requires
        0 <= i <= exists.len(),
        forall|j: int| 0 <= j < i ==> !#[trigger] exists[j],
    ensures
        first_existing_index(exists) == (match first_existing_index(exists.subrange(i, exists.len() as int)) {
            Some(k) => Some(k + i),
            None => None::<int>,
        }),
    decreases i,
{
    if i > 0 {
        lemma_first_existing_index(exists.drop_first(), i - 1);
        assert(exists.drop_first().subrange(i - 1, exists.len() - 1) =~= exists.subrange(i, exists.len() as int));
    } else {
        assert(exists.subrange(0, exists.len() as int) =~= exists);
    }
}

/// Index of the first candidate that exists.
pub fn first_existing(exists: &Vec<bool>) -> (res: Option<usize>)
    ensures
        match first_existing_index(exists@) {
            Some(i) => res matches Some(k) && k == i,
            None => res is None,
        },
        res matches Some(i) ==> i < exists@.len(),
{
    let mut i: usize = 0;
    while i < exists.len()
        invariant
            i <= exists@.len(),
            forall|j: int| 0 <= j < i ==> !#[trigger] exists@[j],
        decreases exists@.len() - i,
    {
        if exists[i] {
            proof { lemma_first_existing_index(exists@, i as int); }
            return Some(i);
        }
        i = i + 1;
    }
    proof { lemma_first_existing_index(exists@, i as int); }
    None
}

} // verus!
