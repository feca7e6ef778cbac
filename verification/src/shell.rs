use crate::text::{
    decimal_u32, decode, fields, parse_u32, same, split, starts_with, trim, trimmed, utf8_text,
};
use std::collections::HashMap;
use vstd::prelude::*;

verus! {

broadcast use vstd::std_specs::hash::group_hash_axioms;

/// Why the process table gave no answer for a process.
#[derive(Debug, Clone, Copy, PartialEq, Eq, Structural)]
pub enum LookupFailure {
    /// Nothing is recorded for the process: its status is still to be read.
    NotRecorded,
    /// Its status could not be read.
    Unreadable,
    /// Its status is not text.
    NotText,
    /// Its status has no line for the field.
    NoField,
    /// The line for the field has no colon after the field's name.
    NoColon,
    /// The field does not hold a process identifier.
    NotANumber,
}

/// A process for which the process table gave no answer, and why.
#[derive(Debug, Clone, Copy, PartialEq, Eq, Structural)]
pub struct ProcessLookupError {
    /// The process.
    pub pid: u32,
    /// Why the table gave no answer for it.
    pub reason: LookupFailure,
}

/// Whether `name` is the name of an interactive shell that can be opened.
pub open spec fn known_shell(name: Seq<char>) -> bool {
    ||| name == "ash"@
    ||| name == "bash"@
    ||| name == "elvish"@
    ||| name == "fish"@
    ||| name == "nu"@
    ||| name == "pwsh"@
    ||| name == "tcsh"@
    ||| name == "zsh"@
}

/// The index of the first of `lines` that begins with `field`, or their number where
/// none does.
pub open spec fn first_line_of(lines: Seq<Seq<char>>, field: Seq<char>) -> int
    decreases lines.len(),
{
    if lines.len() == 0 || field.is_prefix_of(lines[0]) {
        0
    } else {
        1 + first_line_of(lines.drop_first(), field)
    }
}

/// What the status text of a process holds for `field`: what follows the field's name
/// and a colon on the first line that begins with that name, without the surrounding
/// white space.
pub open spec fn status_field(status: Seq<char>, field: Seq<char>) -> Result<
    Seq<char>,
    LookupFailure,
> {
    let lines = fields(status, '\n');
    let k = first_line_of(lines, field);
    if !(0 <= k < lines.len()) {
        Err(LookupFailure::NoField)
    } else if !(field + seq![':']).is_prefix_of(lines[k]) {
        Err(LookupFailure::NoColon)
    } else {
        Ok(trimmed(lines[k].skip(field.len() as int + 1)))
    }
}

/// The parent of the process whose status text is `status`.
pub open spec fn parent_in(status: Seq<char>) -> Result<u32, LookupFailure> {
    match status_field(status, "PPid"@) {
        Ok(text) => match decimal_u32(text) {
            Some(pid) => Ok(pid),
            None => Err(LookupFailure::NotANumber),
        },
        Err(reason) => Err(reason),
    }
}

/// The name of the process whose status text is `status`.
pub open spec fn name_in(status: Seq<char>) -> Result<Seq<char>, LookupFailure> {
    status_field(status, "Name"@)
}

/// `first_line_of` is the least index of a line that begins with `field`.
pub proof fn lemma_first_line_of(lines: Seq<Seq<char>>, field: Seq<char>, i: int)
    requires
        0 <= i <= lines.len(),
        forall|j: int| 0 <= j < i ==> !field.is_prefix_of(#[trigger] lines[j]),
        i < lines.len() ==> field.is_prefix_of(lines[i]),
    ensures
        first_line_of(lines, field) == i,
    decreases lines.len(),
{
    if lines.len() > 0 && !field.is_prefix_of(lines[0]) {
        let rest = lines.drop_first();
        assert forall|j: int| 0 <= j < i - 1 implies !field.is_prefix_of(#[trigger] rest[j]) by {}
        lemma_first_line_of(rest, field, i - 1);
    }
}

/// Tests a name against the known shells.
pub fn is_known_shell(name: &str) -> (known: bool)
    ensures
        known == known_shell(name@),
{
    same(name, "ash") || same(name, "bash") || same(name, "elvish") || same(name, "fish") || same(
        name,
        "nu",
    ) || same(name, "pwsh") || same(name, "tcsh") || same(name, "zsh")
}

/// Reads one field out of the status text of a process.
pub fn get_process_status_field(status: &str, field: &str) -> (res: Result<String, LookupFailure>)
    ensures
        match status_field(status@, field@) {
            Ok(text) => res matches Ok(found) && found@ == text,
            Err(reason) => res == Err::<String, LookupFailure>(reason),
        },
{
    let lines = split(status, '\n');
    let n: usize = lines.len();
    let mut k: usize = 0;
    while k < n && !starts_with(lines[k].as_str(), field)
        invariant
            n == lines@.len(),
            k <= n,
            lines.deep_view() == fields(status@, '\n'),
            forall|j: int| 0 <= j < k ==> !field@.is_prefix_of(#[trigger] lines.deep_view()[j]),
        decreases n - k,
    {
        k += 1;
    }
    proof {
        lemma_first_line_of(lines.deep_view(), field@, k as int);
    }
    if k == n {
        return Err(LookupFailure::NoField);
    }
    let line = lines[k].as_str();
    let mut head = field.to_owned();
    head.append(":");
    proof {
        reveal_strlit(":");
    }
    if !starts_with(line, head.as_str()) {
        return Err(LookupFailure::NoColon);
    }
    let from: usize = head.as_str().unicode_len();
    let to: usize = line.unicode_len();
    let rest = line.substring_char(from, to);
    Ok(trim(rest).to_owned())
}

/// Reads the parent's identifier out of the status text of a process.
pub fn get_parent_pid(status: &str) -> (res: Result<u32, LookupFailure>)
    ensures
        res == parent_in(status@),
{
    match get_process_status_field(status, "PPid") {
        Ok(text) => match parse_u32(text.as_str()) {
            Some(pid) => Ok(pid),
            None => Err(LookupFailure::NotANumber),
        },
        Err(reason) => Err(reason),
    }
}

/// Reads the name out of the status text of a process.
pub fn get_process_name(status: &str) -> (res: Result<String, LookupFailure>)
    ensures
        match name_in(status@) {
            Ok(name) => res matches Ok(found) && found@ == name,
            Err(reason) => res == Err::<String, LookupFailure>(reason),
        },
{
    get_process_status_field(status, "Name")
}

/// What was read of the processes so far: for each process that was asked about, the
/// bytes of its status, or that there were none to be had.
pub struct ProcessTable {
    statuses: HashMap<u32, Option<Vec<u8>>>,
}

/// The bytes of a status as plain values.
pub open spec fn bytes_of(status: Option<Vec<u8>>) -> Option<Seq<u8>> {
    match status {
        Some(bytes) => Some(bytes@),
        None => None,
    }
}

impl View for ProcessTable {
    type V = Map<u32, Option<Seq<u8>>>;

    closed spec fn view(&self) -> Map<u32, Option<Seq<u8>>> {
        Map::new(
            |pid: u32| self.statuses@.contains_key(pid),
            |pid: u32| bytes_of(self.statuses@[pid]),
        )
    }
}

impl ProcessTable {
    /// A table in which nothing is recorded.
    pub fn new() -> (table: ProcessTable)
        ensures
            table@ == Map::<u32, Option<Seq<u8>>>::empty(),
    {
        let table = ProcessTable { statuses: HashMap::new() };
        table
    }

    /// Records what reading the status of `pid` gave: its bytes, or nothing where it
    /// could not be read. What was recorded for `pid` before is forgotten.
    pub fn record(&mut self, pid: u32, status: Option<Vec<u8>>)
        ensures
            final(self)@ == old(self)@.insert(pid, bytes_of(status)),
    {
        self.statuses.insert(pid, status);
    }

    /// The number of processes for which something is recorded.
    fn size(&self) -> (n: usize)
        ensures
            self@.dom().finite(),
            n == self@.dom().len(),
    {
        assert(self@.dom() =~= self.statuses@.dom());
        self.statuses.len()
    }
}

/// The status text that the table holds for the process `pid`.
pub open spec fn status_of(table: Map<u32, Option<Seq<u8>>>, pid: u32) -> Result<
    Seq<char>,
    ProcessLookupError,
> {
    if !table.contains_key(pid) {
        Err(ProcessLookupError { pid, reason: LookupFailure::NotRecorded })
    } else {
        match table[pid] {
            None => Err(ProcessLookupError { pid, reason: LookupFailure::Unreadable }),
            Some(bytes) => match utf8_text(bytes) {
                None => Err(ProcessLookupError { pid, reason: LookupFailure::NotText }),
                Some(status) => Ok(status),
            },
        }
    }
}

/// The parent of the process `pid`, as the table tells it.
pub open spec fn parent_of(table: Map<u32, Option<Seq<u8>>>, pid: u32) -> Result<
    u32,
    ProcessLookupError,
> {
    match status_of(table, pid) {
        Err(e) => Err(e),
        Ok(status) => match parent_in(status) {
            Err(reason) => Err(ProcessLookupError { pid, reason }),
            Ok(parent) => Ok(parent),
        },
    }
}

/// What the table tells of the process `pid`: its name and its parent.
pub open spec fn examined(table: Map<u32, Option<Seq<u8>>>, pid: u32) -> Result<
    (Seq<char>, u32),
    ProcessLookupError,
> {
    match parent_of(table, pid) {
        Err(e) => Err(e),
        Ok(parent) => match name_in(status_of(table, pid)->Ok_0) {
            Err(reason) => Err(ProcessLookupError { pid, reason }),
            Ok(name) => Ok((name, parent)),
        },
    }
}

/// The parents of the process `pid`, the nearest first, up to the process that has none.
/// A way that is still going after `fuel` steps is cut off there. A process on the way
/// of which the table tells nothing, or nothing that can be read, fails the whole.
pub open spec fn parents_of(table: Map<u32, Option<Seq<u8>>>, pid: u32, fuel: nat) -> Result<
    Seq<u32>,
    ProcessLookupError,
>
    decreases fuel,
{
    match parent_of(table, pid) {
        Err(e) => Err(e),
        Ok(parent) => if parent == 0 || fuel == 0 {
            Ok(Seq::empty())
        } else {
            behind(seq![parent], parents_of(table, parent, (fuel - 1) as nat))
        },
    }
}

/// The outcome `rest` with `first` put in front of what it lists.
pub open spec fn behind(first: Seq<u32>, rest: Result<Seq<u32>, ProcessLookupError>) -> Result<
    Seq<u32>,
    ProcessLookupError,
> {
    match rest {
        Ok(pids) => Ok(first + pids),
        Err(e) => Err(e),
    }
}

/// The shell that is found on the way from the process `pid` up through its parents: the
/// name of the first process on that way that bears the name of a known shell, `pid`
/// itself counted. There is none where the way ends, at a process without a parent, before
/// such a name is met, or where it is still going after `fuel` steps. A process on the way
/// of which the table tells nothing, or nothing that can be read, ends the search with it.
pub open spec fn shell_of(table: Map<u32, Option<Seq<u8>>>, pid: u32, fuel: nat) -> Result<
    Option<Seq<char>>,
    ProcessLookupError,
>
    decreases fuel,
{
    match examined(table, pid) {
        Err(e) => Err(e),
        Ok((name, parent)) => if known_shell(name) {
            Ok(Some(name))
        } else if parent == 0 || fuel == 0 {
            Ok(None)
        } else {
            shell_of(table, parent, (fuel - 1) as nat)
        },
    }
}

/// Whether `res` is the outcome `outcome`, its text taken as a sequence of characters.
pub open spec fn shows(
    res: Result<Option<String>, ProcessLookupError>,
    outcome: Result<Option<Seq<char>>, ProcessLookupError>,
) -> bool {
    match outcome {
        Ok(Some(name)) => res matches Ok(Some(found)) && found@ == name,
        Ok(None) => res matches Ok(None),
        Err(e) => res == Err::<Option<String>, ProcessLookupError>(e),
    }
}

/// The status text of the process `pid` in the table.
fn status_at(table: &ProcessTable, pid: u32) -> (res: Result<&str, ProcessLookupError>)
    ensures
        match status_of(table@, pid) {
            Ok(status) => res matches Ok(found) && found@ == status,
            Err(e) => res == Err::<&str, ProcessLookupError>(e),
        },
{
    let bytes = match table.statuses.get(&pid) {
        None => {
            return Err(ProcessLookupError { pid, reason: LookupFailure::NotRecorded });
        },
        Some(None) => {
            return Err(ProcessLookupError { pid, reason: LookupFailure::Unreadable });
        },
        Some(Some(bytes)) => bytes,
    };
    match decode(bytes.as_slice()) {
        None => Err(ProcessLookupError { pid, reason: LookupFailure::NotText }),
        Some(status) => Ok(status),
    }
}

/// The parent of the process `pid` in the table.
fn parent_at(table: &ProcessTable, pid: u32) -> (res: Result<u32, ProcessLookupError>)
    ensures
        res == parent_of(table@, pid),
{
    let status = match status_at(table, pid) {
        Err(e) => {
            return Err(e);
        },
        Ok(status) => status,
    };
    match get_parent_pid(status) {
        Err(reason) => Err(ProcessLookupError { pid, reason }),
        Ok(parent) => Ok(parent),
    }
}

/// Looks the process `pid` up in the table.
fn examine(table: &ProcessTable, pid: u32) -> (res: Result<(String, u32), ProcessLookupError>)
    ensures
        match examined(table@, pid) {
            Ok((name, parent)) => res matches Ok(found) && found.0@ == name && found.1 == parent,
            Err(e) => res == Err::<(String, u32), ProcessLookupError>(e),
        },
{
    let parent = match parent_at(table, pid) {
        Err(e) => {
            return Err(e);
        },
        Ok(parent) => parent,
    };
    let status = match status_at(table, pid) {
        Err(e) => {
            return Err(e);
        },
        Ok(status) => status,
    };
    match get_process_name(status) {
        Err(reason) => Err(ProcessLookupError { pid, reason }),
        Ok(name) => Ok((name, parent)),
    }
}

/// Lists the parents of the process `pid`, the nearest first, as far as the table holds
/// them. A way that is still going after as many steps as the table has processes runs in
/// a circle, and is cut off there.
///
/// Where the way comes to a process that is not recorded, the call fails with that
/// process and `NotRecorded`: record its status and ask again.
pub fn get_all_parents_pid(table: &ProcessTable, pid: u32) -> (res: Result<
    Vec<u32>,
    ProcessLookupError,
>)
    ensures
        match parents_of(table@, pid, table@.dom().len()) {
            Ok(pids) => res matches Ok(found) && found@ == pids,
            Err(e) => res == Err::<Vec<u32>, ProcessLookupError>(e),
        },
{
    let mut found: Vec<u32> = Vec::new();
    let mut fuel: usize = table.size();
    let mut at: u32 = pid;
    loop
        invariant
            parents_of(table@, pid, table@.dom().len()) == behind(
                found@,
                parents_of(table@, at, fuel as nat),
            ),
        decreases fuel,
    {
        let parent = match parent_at(table, at) {
            Err(e) => {
                return Err(e);
            },
            Ok(parent) => parent,
        };
        if parent == 0 || fuel == 0 {
            return Ok(found);
        }
        proof {
            let rest = parents_of(table@, parent, (fuel - 1) as nat);
            if let Ok(pids) = rest {
                assert(found@ + (seq![parent] + pids) =~= found@.push(parent) + pids);
            }
        }
        found.push(parent);
        at = parent;
        fuel -= 1;
    }
}

/// Searches the way from the process `pid` up through its parents for a known shell, in
/// what the table holds. A way that is still going after as many steps as the table has
/// processes runs in a circle, and holds no shell.
///
/// Where the search comes to a process that is not recorded, it fails with that process
/// and `NotRecorded`: record its status and search again.
pub fn select_shell_from_pid(table: &ProcessTable, pid: u32) -> (res: Result<
    Option<String>,
    ProcessLookupError,
>)
    ensures
        shows(res, shell_of(table@, pid, table@.dom().len())),
{
    let mut fuel: usize = table.size();
    let mut at: u32 = pid;
    loop
        invariant
            shell_of(table@, pid, table@.dom().len()) == shell_of(table@, at, fuel as nat),
        decreases fuel,
    {
        let (name, parent) = match examine(table, at) {
            Err(e) => {
                return Err(e);
            },
            Ok(found) => found,
        };
        if is_known_shell(name.as_str()) {
            return Ok(Some(name));
        }
        if parent == 0 || fuel == 0 {
            return Ok(None);
        }
        at = parent;
        fuel -= 1;
    }
}

/// Whether the search goes past the process `pid` to its parent: the table tells its name
/// and its parent, the name is that of no known shell, and there is a parent.
pub open spec fn passed(table: Map<u32, Option<Seq<u8>>>, pid: u32) -> bool {
    examined(table, pid) matches Ok(found) && !known_shell(found.0) && found.1 != 0
}

/// Whether `way` leads from a process up through its parents: each process on it but the
/// last is one that the search goes past, and is followed by its parent.
pub open spec fn leads_up(table: Map<u32, Option<Seq<u8>>>, way: Seq<u32>) -> bool {
    &&& way.len() >= 1
    &&& forall|i: int|
        0 <= i < way.len() - 1 ==> passed(table, #[trigger] way[i]) && examined(
            table,
            way[i],
        )->Ok_0.1 == way[i + 1]
}

/// The search from a process finds what the search from any process further up its way
/// finds, as long as the fuel lasts. So the shell that is found is the nearest: the first
/// process on the way that bears the name of a known shell gives the answer. And a process
/// on the way of which the table tells nothing, or nothing that can be read, fails the
/// search, where no shell was met below it.
pub proof fn lemma_search_goes_up_the_way(
    table: Map<u32, Option<Seq<u8>>>,
    way: Seq<u32>,
    fuel: nat,
)
    requires
        leads_up(table, way),
        way.len() - 1 <= fuel,
    ensures
        shell_of(table, way[0], fuel) == shell_of(
            table,
            way.last(),
            (fuel - (way.len() - 1)) as nat,
        ),
        examined(table, way.last()) matches Ok(found) && known_shell(found.0) ==> shell_of(
            table,
            way[0],
            fuel,
        ) == Ok::<Option<Seq<char>>, ProcessLookupError>(Some(examined(table, way.last())->Ok_0.0)),
        examined(table, way.last()) matches Err(e) ==> shell_of(table, way[0], fuel) == Err::<
            Option<Seq<char>>,
            ProcessLookupError,
        >(e),
    decreases way.len(),
{
    if way.len() > 1 {
        let rest = way.drop_first();
        assert(passed(table, way[0]));
        assert(rest[0] == way[1]);
        assert forall|i: int| 0 <= i < rest.len() - 1 implies passed(table, #[trigger] rest[i])
            && examined(table, rest[i])->Ok_0.1 == rest[i + 1] by {
            assert(rest[i] == way[i + 1]);
            assert(passed(table, way[i + 1]));
            assert(rest[i + 1] == way[i + 2]);
        }
        lemma_search_goes_up_the_way(table, rest, (fuel - 1) as nat);
        assert(rest.last() == way.last());
    }
}

/// A shell that the search finds is a known one.
pub proof fn lemma_found_shell_is_known(table: Map<u32, Option<Seq<u8>>>, pid: u32, fuel: nat)
    ensures
        shell_of(table, pid, fuel) matches Ok(Some(name)) ==> known_shell(name),
    decreases fuel,
{
    if let Ok((name, parent)) = examined(table, pid) {
        if !known_shell(name) && parent != 0 && fuel != 0 {
            lemma_found_shell_is_known(table, parent, (fuel - 1) as nat);
        }
    }
}

} // verus!
