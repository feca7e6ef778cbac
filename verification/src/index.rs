use crate::invocation::{push_str, Invocation};
use crate::text::{
    decode, fields, join, joined, lemma_fields_hold_no_separator, lemma_trimmed_holds_no_other,
    lemma_trimmed_twice, split, trim, trimmed, utf8_text,
};
use vstd::prelude::*;

verus! {

/// Why the index named no candidate.
#[derive(Debug)]
pub enum IndexError {
    /// The index knows no package that provides the command.
    NoMatch,
    /// The query tool ended with a failure status. Holds what it wrote to its error
    /// stream, where that is text.
    QueryFailed(Option<String>),
}

/// What `lines` name: each line without its surrounding white space, in order, but for
/// the lines of which nothing is left.
pub open spec fn named(lines: Seq<Seq<char>>) -> Seq<Seq<char>>
    decreases lines.len(),
{
    if lines.len() == 0 {
        Seq::empty()
    } else if trimmed(lines.last()).len() == 0 {
        named(lines.drop_last())
    } else {
        named(lines.drop_last()).push(trimmed(lines.last()))
    }
}

/// The package identifiers that the query tool's output `stdout` lists: what the lines
/// of the output, taken without its surrounding white space, name.
pub open spec fn candidates(stdout: Seq<char>) -> Seq<Seq<char>> {
    named(fields(trimmed(stdout), '\n'))
}

/// Whether `name` can be a package identifier in a list of candidates: it is not empty,
/// has no white space around it and is written on one line.
pub open spec fn well_named(name: Seq<char>) -> bool {
    &&& name.len() > 0
    &&& trimmed(name) == name
    &&& forall|j: int| 0 <= j < name.len() ==> name[j] != '\n'
}

/// What lines name is never empty and has no white space around it, and there are no
/// more names than lines.
pub proof fn lemma_named_are_trimmed(lines: Seq<Seq<char>>)
    ensures
        named(lines).len() <= lines.len(),
        forall|k: int|
            0 <= k < named(lines).len() ==> (#[trigger] named(lines)[k]).len() > 0 && trimmed(
                named(lines)[k],
            ) == named(lines)[k],
    decreases lines.len(),
{
    if lines.len() > 0 {
        let init = lines.drop_last();
        lemma_named_are_trimmed(init);
        lemma_trimmed_twice(lines.last());
        assert forall|k: int| 0 <= k < named(lines).len() implies (#[trigger] named(
            lines,
        )[k]).len() > 0 && trimmed(named(lines)[k]) == named(lines)[k] by {
            if k < named(init).len() {
                assert(named(lines)[k] == named(init)[k]);
            } else {
                assert(named(lines)[k] == trimmed(lines.last()));
            }
        }
    }
}

/// Lines that are not empty and have no white space around them name themselves.
pub proof fn lemma_named_keeps(lines: Seq<Seq<char>>)
    requires
        forall|k: int|
            0 <= k < lines.len() ==> (#[trigger] lines[k]).len() > 0 && trimmed(lines[k])
                == lines[k],
    ensures
        named(lines) == lines,
    decreases lines.len(),
{
    if lines.len() > 0 {
        let init = lines.drop_last();
        assert forall|k: int| 0 <= k < init.len() implies (#[trigger] init[k]).len() > 0
            && trimmed(init[k]) == init[k] by {
            assert(init[k] == lines[k]);
        }
        lemma_named_keeps(init);
        assert(lines.last() == lines[lines.len() - 1]);
        assert(named(lines) =~= lines);
    }
}

/// What names name is the names themselves.
pub proof fn lemma_named_twice(lines: Seq<Seq<char>>)
    ensures
        named(named(lines)) == named(lines),
{
    lemma_named_are_trimmed(lines);
    lemma_named_keeps(named(lines));
}

/// What lines that hold no line break name are package identifiers.
pub proof fn lemma_named(lines: Seq<Seq<char>>)
    requires
        forall|k: int, j: int|
            0 <= k < lines.len() && 0 <= j < lines[k].len() ==> lines[k][j] != '\n',
    ensures
        forall|k: int| 0 <= k < named(lines).len() ==> well_named(#[trigger] named(lines)[k]),
    decreases lines.len(),
{
    if lines.len() > 0 {
        let init = lines.drop_last();
        let last = lines.last();
        assert forall|k: int, j: int|
            0 <= k < init.len() && 0 <= j < init[k].len() implies init[k][j] != '\n' by {
            assert(init[k] == lines[k]);
        }
        lemma_named(init);
        lemma_trimmed_twice(last);
        assert forall|j: int| 0 <= j < last.len() implies last[j] != '\n' by {
            assert(last == lines[lines.len() - 1]);
        }
        lemma_trimmed_holds_no_other(last, '\n');
        assert forall|k: int| 0 <= k < named(lines).len() implies well_named(
            #[trigger] named(lines)[k],
        ) by {
            if k < named(init).len() {
                assert(named(lines)[k] == named(init)[k]);
            } else {
                assert(named(lines)[k] == trimmed(last));
            }
        }
    }
}

/// Every candidate that an output lists is a package identifier: not empty, without white
/// space around it, and without a line break in it.
pub proof fn lemma_candidates(stdout: Seq<char>)
    ensures
        forall|k: int|
            0 <= k < candidates(stdout).len() ==> well_named(#[trigger] candidates(stdout)[k]),
{
    lemma_fields_hold_no_separator(trimmed(stdout), '\n');
    lemma_named(fields(trimmed(stdout), '\n'));
}

/// The arguments with which the query tool is asked for the packages that provide an
/// executable named `command`.
pub open spec fn query_args(command: Seq<char>) -> Seq<Seq<char>> {
    seq!["--minimal"@, "--at-root"@, "--whole-name"@, "/bin/"@ + command]
}

/// The call of the query tool that asks which packages provide an executable named
/// `command`.
pub fn index_query(command: &str) -> (out: Invocation)
    ensures
        out.is("nix-locate"@, query_args(command@), None),
{
    let mut args: Vec<String> = Vec::new();
    push_str(&mut args, "--minimal");
    push_str(&mut args, "--at-root");
    push_str(&mut args, "--whole-name");
    let mut path = "/bin/".to_owned();
    path.append(command);
    push_str(&mut args, path.as_str());
    assert(args.deep_view() =~= query_args(command@));
    Invocation { program: "nix-locate".to_owned(), args, name: None }
}

/// What `lines` name: each without its surrounding white space, in order, but for those of
/// which nothing is left.
pub fn names(lines: &Vec<String>) -> (found: Vec<String>)
    ensures
        found.deep_view() == named(lines.deep_view()),
{
    let n: usize = lines.len();
    let mut found: Vec<String> = Vec::new();
    let mut i: usize = 0;
    while i < n
        invariant
            n == lines@.len(),
            i <= n,
            found.deep_view() == named(lines.deep_view().take(i as int)),
        decreases n - i,
    {
        let name = trim(lines[i].as_str());
        proof {
            let next = lines.deep_view().take(i + 1);
            assert(next.drop_last() =~= lines.deep_view().take(i as int));
            assert(next.last() == lines@[i as int]@);
        }
        if name.unicode_len() > 0 {
            let ghost before = found.deep_view();
            found.push(name.to_owned());
            assert(found.deep_view() =~= before.push(name@));
        }
        i += 1;
    }
    assert(lines.deep_view().take(n as int) =~= lines.deep_view());
    found
}

/// Reads the outcome of a run of the query tool: whether it ended with success, and what
/// it wrote to its output and error streams.
///
/// A failed run is `QueryFailed`, whatever it wrote. A successful run whose output lists
/// no candidate, be it empty or made of white space, is `NoMatch`. Any other names the
/// candidates, in the order of the output, and each of them is a package identifier.
pub fn index_database(success: bool, stdout: &str, stderr: &[u8]) -> (res: Result<
    Vec<String>,
    IndexError,
>)
    ensures
        !success ==> (res matches Err(IndexError::QueryFailed(text)) && text.deep_view()
            == utf8_text(stderr@)),
        success && candidates(stdout@).len() == 0 ==> res matches Err(IndexError::NoMatch),
        success && candidates(stdout@).len() > 0 ==> (res matches Ok(found) && found.deep_view()
            == candidates(stdout@)),
        res matches Ok(found) ==> found@.len() > 0 && forall|k: int|
            0 <= k < found@.len() ==> well_named(#[trigger] found@[k]@),
{
    if !success {
        let text: Option<String> = match decode(stderr) {
            Some(s) => Some(s.to_owned()),
            None => None,
        };
        return Err(IndexError::QueryFailed(text));
    }
    let found = names(&split(trim(stdout), '\n'));
    proof {
        lemma_candidates(stdout@);
        assert forall|k: int| 0 <= k < found@.len() implies well_named(#[trigger] found@[k]@) by {
            assert(found@[k]@ == found.deep_view()[k]);
        }
    }
    if found.len() == 0 {
        return Err(IndexError::NoMatch);
    }
    Ok(found)
}

impl IndexError {
    /// What to tell the user who asked for `command`.
    pub open spec fn message_text(self, command: Seq<char>) -> Seq<char> {
        match self {
            IndexError::NoMatch => "No executable `"@ + command
                + "` found in nix-index database."@,
            IndexError::QueryFailed(Some(text)) => "nix-locate failed with: "@ + text@,
            IndexError::QueryFailed(None) => "nix-locate failed"@,
        }
    }

    /// What to tell the user who asked for `command`.
    pub fn message(&self, command: &str) -> (out: String)
        ensures
            out@ == self.message_text(command@),
    {
        match self {
            IndexError::NoMatch => {
                let mut out = "No executable `".to_owned();
                out.append(command);
                out.append("` found in nix-index database.");
                out
            },
            IndexError::QueryFailed(Some(text)) => {
                let mut out = "nix-locate failed with: ".to_owned();
                out.append(text.as_str());
                out
            },
            IndexError::QueryFailed(None) => "nix-locate failed".to_owned(),
        }
    }
}

/// The list of the packages `found` that provide `command`, as it is shown to the user:
/// a heading, then one package to a line behind a dash.
pub open spec fn listing_text(command: Seq<char>, found: Seq<Seq<char>>) -> Seq<char> {
    "Packages that contain /bin/"@ + command + ":\n"@ + joined(
        Seq::new(found.len(), |i: int| "- "@ + found[i]),
        "\n"@,
    )
}

/// The list of the packages `found` that provide `command`, as it is shown to the user.
pub fn package_listing(command: &str, found: &Vec<String>) -> (out: String)
    ensures
        out@ == listing_text(command@, found.deep_view()),
{
    let n: usize = found.len();
    let mut lines: Vec<String> = Vec::new();
    let mut i: usize = 0;
    while i < n
        invariant
            n == found@.len(),
            i <= n,
            lines@.len() == i,
            forall|j: int| 0 <= j < i ==> lines@[j]@ == "- "@ + found@[j]@,
        decreases n - i,
    {
        let mut line = "- ".to_owned();
        line.append(found[i].as_str());
        lines.push(line);
        i += 1;
    }
    assert(lines.deep_view() =~= Seq::new(
        found.deep_view().len(),
        |i: int| "- "@ + found.deep_view()[i],
    ));
    let mut out = "Packages that contain /bin/".to_owned();
    out.append(command);
    out.append(":\n");
    out.append(join(&lines, "\n").as_str());
    out
}

/// What there is to warn of about the index database.
#[derive(Debug, Clone, Copy, PartialEq, Eq, Structural)]
pub enum DatabaseWarning {
    /// There is none.
    Missing,
    /// It was not written for more than thirty days.
    Stale,
}

/// The age in seconds beyond which a database is old: thirty days.
pub const MAX_AGE_SECS: u64 = 30 * 24 * 60 * 60;

/// Whether a database is old: one that was last written more than thirty days ago, by
/// `secs` seconds and `nanos` nanoseconds, and that can be written to. Of one that cannot,
/// the time of its writing says nothing.
pub open spec fn database_old(secs: u64, nanos: u32, readonly: bool) -> bool {
    (secs > MAX_AGE_SECS || (secs == MAX_AGE_SECS && nanos > 0)) && !readonly
}

/// What there is to warn of about a database: that it is missing, or, of one that can be
/// written to, that it is old.
pub open spec fn database_warning(exists: bool, readonly: bool, secs: u64, nanos: u32) -> Option<
    DatabaseWarning,
> {
    if !exists {
        Some(DatabaseWarning::Missing)
    } else if database_old(secs, nanos, readonly) {
        Some(DatabaseWarning::Stale)
    } else {
        None
    }
}

/// Tests whether the database is more than thirty days old.
pub fn is_database_old(secs: u64, nanos: u32, readonly: bool) -> (old: bool)
    ensures
        old == database_old(secs, nanos, readonly),
{
    (secs > MAX_AGE_SECS || (secs == MAX_AGE_SECS && nanos > 0)) && !readonly
}

/// Finds fault with a database that does not exist.
pub fn check_database_exists(exists: bool) -> (res: Result<(), DatabaseWarning>)
    ensures
        exists ==> res is Ok,
        !exists ==> res == Err::<(), DatabaseWarning>(DatabaseWarning::Missing),
{
    if exists {
        Ok(())
    } else {
        Err(DatabaseWarning::Missing)
    }
}

/// Finds what there is to warn of before the index is asked. No warning keeps the
/// query from being made.
pub fn check_database_updated(exists: bool, readonly: bool, secs: u64, nanos: u32) -> (res: Option<
    DatabaseWarning,
>)
    ensures
        res == database_warning(exists, readonly, secs, nanos),
{
    match check_database_exists(exists) {
        Err(warning) => Some(warning),
        Ok(_) => {
            if readonly {
                None
            } else if is_database_old(secs, nanos, readonly) {
                Some(DatabaseWarning::Stale)
            } else {
                None
            }
        },
    }
}

impl DatabaseWarning {
    /// The warning as it is shown to the user.
    pub open spec fn warning_text(self) -> Seq<char> {
        match self {
            DatabaseWarning::Missing =>
                "Warning: Nix-index database does not exist, either obtain a prebuilt database from https://github.com/Mic92/nix-index-database or try updating with `nix run 'nixpkgs#nix-index' --extra-experimental-features 'nix-command flakes'`."@,
            DatabaseWarning::Stale =>
                "Warning: Nix-index database is older than 30 days, either obtain a prebuilt database from https://github.com/Mic92/nix-index-database or try updating with `nix run 'nixpkgs#nix-index' --extra-experimental-features 'nix-command flakes'`."@,
        }
    }

    /// The warning as it is shown to the user.
    pub fn message(&self) -> (out: String)
        ensures
            out@ == self.warning_text(),
    {
        match self {
            DatabaseWarning::Missing =>
                "Warning: Nix-index database does not exist, either obtain a prebuilt database from https://github.com/Mic92/nix-index-database or try updating with `nix run 'nixpkgs#nix-index' --extra-experimental-features 'nix-command flakes'`.".to_owned(),
            DatabaseWarning::Stale =>
                "Warning: Nix-index database is older than 30 days, either obtain a prebuilt database from https://github.com/Mic92/nix-index-database or try updating with `nix run 'nixpkgs#nix-index' --extra-experimental-features 'nix-command flakes'`.".to_owned(),
        }
    }
}

/// The call that writes the index database anew.
pub fn update_database() -> (out: Invocation)
    ensures
        out.is("nix-index"@, Seq::empty(), None),
{
    let args: Vec<String> = Vec::new();
    assert(args.deep_view() =~= Seq::<Seq<char>>::empty());
    Invocation { program: "nix-index".to_owned(), args, name: None }
}

} // verus!
