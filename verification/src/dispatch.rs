use crate::cache::{
    encoded_entries, held, remember, save, saves, stored, unsaved, Cache, CacheEntry,
    PackageChoice,
};
use crate::invocation::{push_all, push_str, Invocation};
use crate::text::{
    contains, fields, occurs_in, same_ignoring_ascii_case, same_ignoring_case, split, trim,
    trimmed,
};
use vstd::prelude::*;

verus! {

/// What is done with a resolved command.
#[derive(Debug, Clone, Copy, PartialEq, Eq, Structural)]
pub enum Mode {
    /// Install its package for good.
    Install,
    /// Open a shell in which its package is at hand.
    Shell,
    /// Print the path of its executable.
    PrintPath,
    /// Run it.
    Run,
}

/// A build that produced nothing to run.
#[derive(Debug, Clone, Copy, PartialEq, Eq, Structural)]
pub struct BuildFailedError;

/// What is needed to have the path of a command's executable.
#[derive(Debug)]
pub enum PathStep {
    /// The path is known and still there.
    Cached(String),
    /// The package has to be built with this call, whose output names the place.
    Build(Invocation),
}

/// The last step of a dispatch that does not come back: what to write to the state file
/// first, and the program that then takes the place of this one.
#[derive(Debug)]
pub struct Replacement {
    /// The bytes to put in the place of the state file before anything else, where the
    /// cache changed.
    pub save: Option<Vec<u8>>,
    /// The question to put to the user once the bytes are written, where there is one: the
    /// program is started on a yes, and on a no this one ends as if it had done its work.
    pub confirm: Option<String>,
    /// The program to become.
    pub run: Invocation,
}

/// What a dispatch is asked to do with a resolved command.
#[derive(Debug)]
pub struct Request {
    /// What to do with the command.
    pub mode: Mode,
    /// The command as the user wrote it.
    pub command: String,
    /// The arguments to hand to the command.
    pub trail: Vec<String>,
    /// Whether packages come from the channel rather than from a flake.
    pub use_channel: bool,
    /// The flake that packages come from otherwise.
    pub nixpkgs_flake: String,
    /// Whether the user is asked before the command is run.
    pub ask: bool,
}

/// What a dispatch needs next, or how it ends.
#[derive(Debug)]
pub enum Step {
    /// Whether this path is still there on disk: the answer goes to `dispatch_probed`.
    Probe(String),
    /// The output of this build: it goes to `dispatch_built`.
    Build(Invocation),
    /// The shell among the parents of this process: it goes to `dispatch_shell`.
    FindShell,
    /// The path is to be printed, and the work is done.
    Print(String),
    /// The state file is to be written and the program started.
    Replace(Replacement),
    /// The build gave nothing to run.
    Failed(BuildFailedError),
}

/// The mode that the three switches ask for: the first that is set, in this order, and
/// running the command where none is.
pub fn select_mode(install: bool, shell: bool, print_path: bool) -> (mode: Mode)
    ensures
        mode == if install {
            Mode::Install
        } else if shell {
            Mode::Shell
        } else if print_path {
            Mode::PrintPath
        } else {
            Mode::Run
        },
{
    if install {
        Mode::Install
    } else if shell {
        Mode::Shell
    } else if print_path {
        Mode::PrintPath
    } else {
        Mode::Run
    }
}

/// Whether packages come from the channel rather than from a flake: whether the package
/// search path names one for `nixpkgs`.
pub fn use_channel(nix_path: &str) -> (channel: bool)
    ensures
        channel == occurs_in(nix_path@, "nixpkgs="@),
{
    contains(nix_path, "nixpkgs=")
}

/// The entry as a cache of `level` lets it count: with its path from level 2 on, and
/// without it below.
pub fn at_cache_level(entry: CacheEntry, level: u8) -> (out: CacheEntry)
    ensures
        out@ == if level >= 2 {
            entry@
        } else {
            (entry@.0, None::<Seq<char>>)
        },
{
    if level >= 2 {
        entry
    } else {
        CacheEntry { derivation: entry.derivation, path: None }
    }
}

/// The name under which a package is installed: what follows the last `.` of its
/// identifier, or all of it where it holds none.
pub open spec fn install_name(derivation: Seq<char>) -> Seq<char> {
    fields(derivation, '.').last()
}

/// The arguments of the installer for the package `derivation`.
pub open spec fn install_args(derivation: Seq<char>) -> Seq<Seq<char>> {
    seq!["-f"@, "<nixpkgs>"@, "-iA"@, install_name(derivation)]
}

/// The arguments that name packages to the package manager: behind `-f <nixpkgs>` their
/// identifiers as they are, where packages come from the channel; else each behind the
/// flake and a `#`.
pub open spec fn package_args(use_channel: bool, choices: Seq<Seq<char>>, flake: Seq<char>) -> Seq<
    Seq<char>,
> {
    if use_channel {
        seq!["-f"@, "<nixpkgs>"@] + choices
    } else {
        Seq::new(choices.len(), |i: int| flake + "#"@ + choices[i])
    }
}

/// The arguments of the package manager for a shell with the packages `choices` at hand.
/// With a `command`, the shell runs it with the arguments `trail` and ends.
pub open spec fn shell_args(
    use_channel: bool,
    choices: Seq<Seq<char>>,
    command: Seq<char>,
    trail: Seq<Seq<char>>,
    flake: Seq<char>,
) -> Seq<Seq<char>> {
    seq!["--extra-experimental-features"@, "nix-command flakes"@, "shell"@] + package_args(
        use_channel,
        choices,
        flake,
    ) + if command.len() > 0 {
        seq!["--command"@, command] + trail
    } else {
        Seq::empty()
    }
}

/// The arguments of the package manager for building the package `choice` and printing
/// where its output lies.
pub open spec fn build_args(use_channel: bool, choice: Seq<char>, flake: Seq<char>) -> Seq<
    Seq<char>,
> {
    seq![
        "--extra-experimental-features"@,
        "nix-command flakes"@,
        "build"@,
        "--print-out-paths"@,
        "--no-link"@,
    ] + package_args(use_channel, seq![choice], flake)
}

/// The path of the executable `command` in a package whose build printed `output`, where
/// it printed more than white space.
pub open spec fn built_path(output: Seq<char>, command: Seq<char>) -> Option<Seq<char>> {
    if trimmed(output).len() == 0 {
        None
    } else {
        Some(trimmed(output) + "/bin/"@ + command)
    }
}

/// Appends the arguments that name the packages.
fn push_packages(args: &mut Vec<String>, use_channel: bool, choices: &Vec<String>, flake: &str)
    ensures
        final(args).deep_view() == old(args).deep_view() + package_args(
            use_channel,
            choices.deep_view(),
            flake@,
        ),
{
    if use_channel {
        push_str(args, "-f");
        push_str(args, "<nixpkgs>");
        push_all(args, choices);
    } else {
        let n: usize = choices.len();
        let mut i: usize = 0;
        let ghost wanted = package_args(use_channel, choices.deep_view(), flake@);
        while i < n
            invariant
                n == choices@.len(),
                i <= n,
                !use_channel,
                wanted == package_args(use_channel, choices.deep_view(), flake@),
                args.deep_view() == old(args).deep_view() + wanted.take(i as int),
            decreases n - i,
        {
            let mut arg = flake.to_owned();
            arg.append("#");
            arg.append(choices[i].as_str());
            push_str(args, arg.as_str());
            i += 1;
        }
    }
}

/// The call of the package manager that opens a shell with the packages `choices` at
/// hand, or, with a `command`, runs it there with the arguments `trail`.
pub fn run_command_or_open_shell(
    use_channel: bool,
    choices: &Vec<String>,
    command: &str,
    trail: &Vec<String>,
    nixpkgs_flake: &str,
) -> (out: Invocation)
    ensures
        out.is(
            "nix"@,
            shell_args(use_channel, choices.deep_view(), command@, trail.deep_view(), nixpkgs_flake@),
            None,
        ),
{
    let mut args: Vec<String> = Vec::new();
    push_str(&mut args, "--extra-experimental-features");
    push_str(&mut args, "nix-command flakes");
    push_str(&mut args, "shell");
    push_packages(&mut args, use_channel, choices, nixpkgs_flake);
    if command.unicode_len() > 0 {
        push_str(&mut args, "--command");
        push_str(&mut args, command);
        push_all(&mut args, trail);
    }
    assert(args.deep_view() =~= shell_args(
        use_channel,
        choices.deep_view(),
        command@,
        trail.deep_view(),
        nixpkgs_flake@,
    ));
    Invocation { program: "nix".to_owned(), args, name: None }
}

/// The call of the package manager that builds the package `choice` and prints where
/// its output lies.
pub fn build_command(use_channel: bool, choice: &str, nixpkgs_flake: &str) -> (out: Invocation)
    ensures
        out.is("nix"@, build_args(use_channel, choice@, nixpkgs_flake@), None),
{
    let mut args: Vec<String> = Vec::new();
    push_str(&mut args, "--extra-experimental-features");
    push_str(&mut args, "nix-command flakes");
    push_str(&mut args, "build");
    push_str(&mut args, "--print-out-paths");
    push_str(&mut args, "--no-link");
    let mut choices: Vec<String> = Vec::new();
    choices.push(choice.to_owned());
    push_packages(&mut args, use_channel, &choices, nixpkgs_flake);
    assert(args.deep_view() =~= build_args(use_channel, choice@, nixpkgs_flake@));
    Invocation { program: "nix".to_owned(), args, name: None }
}

/// The path of the executable `command` in the package whose build printed `output`. A
/// build that printed nothing but white space has failed.
pub fn get_command_path(output: &str, command: &str) -> (res: Result<String, BuildFailedError>)
    ensures
        match built_path(output@, command@) {
            Some(path) => res matches Ok(found) && found@ == path,
            None => res is Err,
        },
{
    let base = trim(output);
    if base.unicode_len() == 0 {
        return Err(BuildFailedError);
    }
    let mut path = base.to_owned();
    path.append("/bin/");
    path.append(command);
    Ok(path)
}

/// Decides how to come by the path of a command's executable. `exists` tells whether the
/// path that the entry holds, if it holds one, is still there on disk. A path that is
/// held and still there is used; without one, or with one that is gone, the package of
/// the entry is built anew.
pub fn get_command_path_from_cache(
    entry: &CacheEntry,
    exists: bool,
    use_channel: bool,
    nixpkgs_flake: &str,
) -> (step: PathStep)
    ensures
        match entry@.1 {
            Some(path) if exists => step matches PathStep::Cached(found) && found@ == path,
            _ => step matches PathStep::Build(build) && build.is(
                "nix"@,
                build_args(use_channel, entry@.0, nixpkgs_flake@),
                None,
            ),
        },
{
    match &entry.path {
        Some(path) if exists => PathStep::Cached(path.clone()),
        _ => PathStep::Build(build_command(use_channel, entry.derivation.as_str(), nixpkgs_flake)),
    }
}

/// Takes in what the build of the entry's package printed: hands out the path of the
/// executable and, where there is a cache, puts the entry with that path in it. After a
/// failed build the cache is as it was.
pub fn record_command_path(
    cache: &mut Option<Cache>,
    entry: &CacheEntry,
    command: &str,
    output: &str,
) -> (res: Result<String, BuildFailedError>)
    ensures
        match built_path(output@, command@) {
            Some(path) => res matches Ok(found) && found@ == path && held(*final(cache)) == (
            match held(*old(cache)) {
                Some(choices) => Some(choices.insert(command@, (entry@.0, Some(path)))),
                None => None,
            }) && unsaved(*final(cache)) == (*old(cache) is Some),
            None => res is Err && *final(cache) == *old(cache),
        },
{
    let path = match get_command_path(output, command) {
        Ok(path) => path,
        Err(e) => {
            return Err(e);
        },
    };
    let found = CacheEntry { derivation: entry.derivation.clone(), path: Some(path.clone()) };
    remember(cache, command, found);
    Ok(path)
}

/// The last step of running `command`: flushes the cache and names the executable at
/// `path` as the program to become, with the arguments `trail`, called by the name
/// `command`.
pub fn run_command_from_cache(
    cache: &mut Option<Cache>,
    path: String,
    command: &str,
    trail: &Vec<String>,
) -> (out: Replacement)
    ensures
        saves(*old(cache), *final(cache), out.save),
        out.confirm is None,
        out.run.is(path@, trail.deep_view(), Some(command@)),
{
    let mut args: Vec<String> = Vec::new();
    push_all(&mut args, trail);
    let bytes = save(cache);
    Replacement {
        save: bytes,
        confirm: None,
        run: Invocation { program: path, args, name: Some(command.to_owned()) },
    }
}

/// The last step of opening a shell with the packages `choices` at hand: flushes the
/// cache and names the package manager's shell as the program to become. The shell is the
/// one that was found among the parents of this process, or `bash` where none was.
pub fn open_shell(
    cache: &mut Option<Cache>,
    use_channel: bool,
    choices: &Vec<String>,
    shell: Option<String>,
    nixpkgs_flake: &str,
) -> (out: Replacement)
    ensures
        saves(*old(cache), *final(cache), out.save),
        out.confirm is None,
        out.run.is(
            "nix"@,
            shell_args(
                use_channel,
                choices.deep_view(),
                match shell {
                    Some(name) => name@,
                    None => "bash"@,
                },
                Seq::empty(),
                nixpkgs_flake@,
            ),
            None,
        ),
{
    let name = match shell {
        Some(name) => name,
        None => "bash".to_owned(),
    };
    let trail: Vec<String> = Vec::new();
    let run = run_command_or_open_shell(use_channel, choices, name.as_str(), &trail, nixpkgs_flake);
    let bytes = save(cache);
    Replacement { save: bytes, confirm: None, run }
}

/// The last step of installing the package `derivation`: flushes the cache and names the
/// package manager's installer as the program to become.
pub fn install(cache: &mut Option<Cache>, derivation: &str) -> (out: Replacement)
    ensures
        saves(*old(cache), *final(cache), out.save),
        out.confirm is None,
        out.run.is("nix-env"@, install_args(derivation@), None),
{
    let mut pieces = split(derivation, '.');
    proof {
        crate::text::lemma_fields_nonempty(derivation@, '.');
    }
    let last: usize = pieces.len() - 1;
    let mut args: Vec<String> = Vec::new();
    push_str(&mut args, "-f");
    push_str(&mut args, "<nixpkgs>");
    push_str(&mut args, "-iA");
    push_str(&mut args, pieces[last].as_str());
    assert(args.deep_view() =~= install_args(derivation@));
    let bytes = save(cache);
    Replacement {
        save: bytes,
        confirm: None,
        run: Invocation { program: "nix-env".to_owned(), args, name: None },
    }
}

/// The question that is put before `program` is run.
pub open spec fn prompt(program: Seq<char>) -> Seq<char> {
    "Run '"@ + program + "'? [Y/n]: "@
}

/// The question that is put before a command is run.
pub fn confirm_prompt(program: &str) -> (out: String)
    ensures
        out@ == prompt(program@),
{
    let mut out = "Run '".to_owned();
    out.append(program);
    out.append("'? [Y/n]: ");
    out
}

/// What an answer to the question means, without its surrounding white space and without
/// regard to the case of its letters: yes for `y`, `yes` and no answer at all, no for
/// `n` and `no`, and nothing for anything else.
pub open spec fn answer(input: Seq<char>) -> Option<bool> {
    let said = trimmed(input);
    if same_ignoring_ascii_case(said, "y"@) || same_ignoring_ascii_case(said, "yes"@) || said.len()
        == 0 {
        Some(true)
    } else if same_ignoring_ascii_case(said, "n"@) || same_ignoring_ascii_case(said, "no"@) {
        Some(false)
    } else {
        None
    }
}

/// Reads an answer to the question whether to run the command. Where it is neither yes
/// nor no, the question is to be put again.
pub fn confirmer(input: &str) -> (res: Option<bool>)
    ensures
        res == answer(input@),
{
    let said = trim(input);
    if same_ignoring_case(said, "y") || same_ignoring_case(said, "yes") || said.unicode_len() == 0 {
        Some(true)
    } else if same_ignoring_case(said, "n") || same_ignoring_case(said, "no") {
        Some(false)
    } else {
        None
    }
}

/// Whether the replacement `last` leaves the cache `after` with nothing unsaved: where
/// it `changed` since the last flush, the bytes that `last` hands out are those of the
/// cache, and where it did not, `last` hands out none.
pub open spec fn carries(last: Replacement, after: Option<Cache>, changed: bool) -> bool {
    &&& !unsaved(after)
    &&& changed ==> (after matches Some(cache) && last.save matches Some(bytes) && bytes@
        == encoded_entries(cache.entries()) && stored(bytes@) == Some(cache@))
    &&& !changed ==> last.save is None
}

/// Whether `out` is the step that ends a dispatch with the executable at `path`: in the
/// mode that prints, the path is printed; else the executable becomes the program, under
/// the name of the command and with its arguments, after the question where the request
/// is to ask. `after` is the cache that is left, and `changed` tells whether it had changes
/// to save.
pub open spec fn arrives(
    request: Request,
    path: Seq<char>,
    after: Option<Cache>,
    changed: bool,
    out: Step,
) -> bool {
    if request.mode == Mode::PrintPath {
        unsaved(after) == changed && (out matches Step::Print(printed) && printed@ == path)
    } else {
        out matches Step::Replace(last) && carries(last, after, changed) && last.confirm.deep_view()
            == (if request.ask {
            Some(prompt(path))
        } else {
            None
        }) && last.run.is(path, request.trail.deep_view(), Some(request.command@))
    }
}

/// Whether `out` asks for the build of the package `derivation`.
pub open spec fn builds(request: Request, derivation: Seq<char>, out: Step) -> bool {
    out matches Step::Build(build) && build.is(
        "nix"@,
        build_args(request.use_channel, derivation, request.nixpkgs_flake@),
        None,
    )
}

/// The first step of a dispatch. Installing needs nothing more: the cache is flushed and
/// the installer becomes the program. Opening a shell needs the shell. Printing the path
/// and running need the path: the one that the entry holds, if it is still there, else
/// the package is built.
pub open spec fn dispatches(
    before: Option<Cache>,
    after: Option<Cache>,
    request: Request,
    entry: CacheEntry,
    out: Step,
) -> bool {
    match request.mode {
        Mode::Install => held(after) == held(before) && (out matches Step::Replace(last)
            && carries(last, after, unsaved(before)) && last.confirm is None && last.run.is(
            "nix-env"@,
            install_args(entry@.0),
            None,
        )),
        Mode::Shell => after == before && out is FindShell,
        _ => after == before && match entry@.1 {
            Some(path) => out matches Step::Probe(asked) && asked@ == path,
            None => builds(request, entry@.0, out),
        },
    }
}

/// The step after the path of the entry was looked for on disk. A path that is still
/// there ends the dispatch; for one that is gone, and for an entry without one, the
/// package of the entry is built. In the modes that take no path the step is the first
/// one again.
pub open spec fn probed(
    before: Option<Cache>,
    after: Option<Cache>,
    request: Request,
    entry: CacheEntry,
    exists: bool,
    out: Step,
) -> bool {
    match request.mode {
        Mode::Install | Mode::Shell => dispatches(before, after, request, entry, out),
        _ => match entry@.1 {
            Some(path) if exists => held(after) == held(before) && arrives(
                request,
                path,
                after,
                unsaved(before),
                out,
            ),
            _ => after == before && builds(request, entry@.0, out),
        },
    }
}

/// The step after the build. A build that printed nothing has failed, and the cache is
/// as it was. Else the cache, where there is one, holds the entry with the path that was
/// built, and the dispatch ends with that path. In the modes that take no path the step
/// is the first one again.
pub open spec fn built(
    before: Option<Cache>,
    after: Option<Cache>,
    request: Request,
    entry: CacheEntry,
    output: Seq<char>,
    out: Step,
) -> bool {
    match request.mode {
        Mode::Install | Mode::Shell => dispatches(before, after, request, entry, out),
        _ => match built_path(output, request.command@) {
            None => after == before && out is Failed,
            Some(path) => held(after) == (match held(before) {
                Some(choices) => Some(choices.insert(request.command@, (entry@.0, Some(path)))),
                None => None,
            }) && arrives(request, path, after, before is Some, out),
        },
    }
}

/// The step after the search for a shell: the cache is flushed, and the package manager's
/// shell with the package of the entry at hand becomes the program. It runs the shell that
/// was found, or `bash` where none was.
pub open spec fn shelled(
    before: Option<Cache>,
    after: Option<Cache>,
    request: Request,
    entry: CacheEntry,
    found: Option<String>,
    out: Step,
) -> bool {
    held(after) == held(before) && (out matches Step::Replace(last) && carries(
        last,
        after,
        unsaved(before),
    ) && last.confirm is None && last.run.is(
        "nix"@,
        shell_args(
            request.use_channel,
            seq![entry@.0],
            match found {
                Some(name) => name@,
                None => "bash"@,
            },
            Seq::empty(),
            request.nixpkgs_flake@,
        ),
        None,
    ))
}

/// Ends a dispatch with the executable at `path`.
fn arrive(cache: &mut Option<Cache>, request: &Request, path: String) -> (out: Step)
    requires
        request.mode == Mode::PrintPath || request.mode == Mode::Run,
    ensures
        held(*final(cache)) == held(*old(cache)),
        request.mode == Mode::PrintPath ==> *final(cache) == *old(cache),
        arrives(*request, path@, *final(cache), unsaved(*old(cache)), out),
{
    match request.mode {
        Mode::PrintPath => Step::Print(path),
        _ => {
            let question = if request.ask {
                Some(confirm_prompt(path.as_str()))
            } else {
                None
            };
            let last = run_command_from_cache(cache, path, request.command.as_str(), &request.trail);
            Step::Replace(Replacement { save: last.save, confirm: question, run: last.run })
        },
    }
}

/// Begins to dispatch the resolved command: names what is needed next, or the
/// replacement that ends it.
pub fn dispatch(cache: &mut Option<Cache>, request: &Request, entry: &PackageChoice) -> (out: Step)
    ensures
        dispatches(*old(cache), *final(cache), *request, *entry, out),
{
    match request.mode {
        Mode::Install => Step::Replace(install(cache, entry.derivation.as_str())),
        Mode::Shell => Step::FindShell,
        _ => match &entry.path {
            Some(path) => Step::Probe(path.clone()),
            None => Step::Build(
                build_command(
                    request.use_channel,
                    entry.derivation.as_str(),
                    request.nixpkgs_flake.as_str(),
                ),
            ),
        },
    }
}

/// Goes on with a dispatch once it is known whether the path of the entry `exists`.
pub fn dispatch_probed(
    cache: &mut Option<Cache>,
    request: &Request,
    entry: &PackageChoice,
    exists: bool,
) -> (out: Step)
    ensures
        probed(*old(cache), *final(cache), *request, *entry, exists, out),
{
    match request.mode {
        Mode::Install | Mode::Shell => dispatch(cache, request, entry),
        _ => match get_command_path_from_cache(
            entry,
            exists,
            request.use_channel,
            request.nixpkgs_flake.as_str(),
        ) {
            PathStep::Cached(path) => arrive(cache, request, path),
            PathStep::Build(build) => Step::Build(build),
        },
    }
}

/// Goes on with a dispatch once the build has printed `output`.
pub fn dispatch_built(
    cache: &mut Option<Cache>,
    request: &Request,
    entry: &PackageChoice,
    output: &str,
) -> (out: Step)
    ensures
        built(*old(cache), *final(cache), *request, *entry, output@, out),
{
    match request.mode {
        Mode::Install | Mode::Shell => dispatch(cache, request, entry),
        _ => match record_command_path(cache, entry, request.command.as_str(), output) {
            Err(e) => Step::Failed(e),
            Ok(path) => arrive(cache, request, path),
        },
    }
}

/// Ends a dispatch that opens a shell, once the shell among the parents of this process
/// was searched for.
pub fn dispatch_shell(
    cache: &mut Option<Cache>,
    request: &Request,
    entry: &PackageChoice,
    found: Option<String>,
) -> (out: Step)
    ensures
        shelled(*old(cache), *final(cache), *request, *entry, found, out),
{
    let mut choices: Vec<String> = Vec::new();
    choices.push(entry.derivation.clone());
    assert(choices.deep_view() =~= seq![entry@.0]);
    Step::Replace(
        open_shell(cache, request.use_channel, &choices, found, request.nixpkgs_flake.as_str()),
    )
}

/// An entry whose path is gone from the disk is built anew from the package that it
/// names, as an entry without a path is, and the cache is not touched by that step.
pub proof fn lemma_stale_path_is_built_anew(
    before: Option<Cache>,
    after: Option<Cache>,
    request: Request,
    entry: CacheEntry,
    out: Step,
)
    requires
        request.mode == Mode::Run || request.mode == Mode::PrintPath,
        probed(before, after, request, entry, false, out),
    ensures
        after == before,
        builds(request, entry@.0, out),
{
}

/// Whatever step of a dispatch names a program to become, it hands out with it the bytes
/// of every change that the cache held unsaved, and leaves the cache with nothing
/// unsaved.
pub proof fn lemma_replacement_carries_the_cache(
    before: Option<Cache>,
    after: Option<Cache>,
    request: Request,
    entry: CacheEntry,
    exists: bool,
    output: Seq<char>,
    found: Option<String>,
    out: Step,
)
    requires
        dispatches(before, after, request, entry, out) || probed(
            before,
            after,
            request,
            entry,
            exists,
            out,
        ) || built(before, after, request, entry, output, out) || shelled(
            before,
            after,
            request,
            entry,
            found,
            out,
        ),
    ensures
        out matches Step::Replace(last) ==> !unsaved(after) && (last.save matches Some(bytes)
            ==> stored(bytes@) == held(after)) && (last.save is None ==> !unsaved(before)),
{
}

} // verus!
