use crate::cache::{held, remember, unsaved, Cache, CacheEntry, Choice, PackageChoice};
use crate::index::{
    candidates, index_query, lemma_candidates, lemma_named_are_trimmed, lemma_named_twice, named,
    names, query_args, well_named, IndexError,
};
use crate::invocation::Invocation;
use crate::text::{fields, join, joined, lemma_fields_of_joined, trim, trimmed};
use vstd::prelude::*;

verus! {

/// Why a command was not resolved.
#[derive(Debug)]
pub enum ResolveError {
    /// The index named no candidate.
    Index(IndexError),
    /// The picker could not be started.
    PickerSpawn,
    /// The picker was left without a choice.
    NothingPicked,
}

/// What is made of the candidates that the index named.
#[derive(Debug)]
pub enum Selection {
    /// There is none.
    Nothing,
    /// There is one, and it is taken.
    Single(String),
    /// There are several: the picker is to be asked, with this text on its input.
    Ask(String),
}

/// Where the resolution of a command stands.
#[derive(Debug)]
pub enum Resolution {
    /// The command is resolved to this choice.
    Resolved(PackageChoice),
    /// The index is to be asked with this call, and its outcome handed to
    /// `resolve_candidates`.
    Query(Invocation),
    /// The picker is to be asked with this text on its input, and its output handed to
    /// `resolve_picked`, or that it could not be started.
    Pick(String),
    /// The command cannot be resolved.
    Failed(ResolveError),
}

/// What is made of the candidates `found`, each taken without its surrounding white
/// space and those left out of which nothing is left: nothing of none, the one of one,
/// and of several the text for the picker, one candidate to a line.
pub open spec fn selected(found: Seq<Seq<char>>) -> Option<Result<Seq<char>, Seq<char>>> {
    let kept = named(found);
    if kept.len() == 0 {
        None
    } else if kept.len() == 1 {
        Some(Ok(kept[0]))
    } else {
        Some(Err(joined(kept, "\n"@)))
    }
}

/// Decides between the candidates that the index named, as far as that takes no picker.
/// A candidate of which nothing is left without its surrounding white space names no
/// package, and does not count.
pub fn index_database_pick(found: &Vec<String>) -> (out: Selection)
    ensures
        match selected(found.deep_view()) {
            None => out matches Selection::Nothing,
            Some(Ok(single)) => out matches Selection::Single(taken) && taken@ == single,
            Some(Err(input)) => out matches Selection::Ask(text) && text@ == input,
        },
{
    let mut kept = names(found);
    if kept.len() > 1 {
        Selection::Ask(join(&kept, "\n"))
    } else {
        match kept.pop() {
            Some(single) => Selection::Single(single),
            None => Selection::Nothing,
        }
    }
}

/// The candidate that the picker's output names: none where it wrote nothing, else what
/// it wrote, without the surrounding white space.
pub open spec fn picked(output: Seq<char>) -> Option<Seq<char>> {
    if output.len() == 0 {
        None
    } else {
        Some(trimmed(output))
    }
}

/// Reads the output of the picker. It is taken as it is: nothing holds it to the
/// candidates that the picker was given.
pub fn pick(output: &str) -> (res: Option<String>)
    ensures
        res.deep_view() == picked(output@),
{
    if output.unicode_len() == 0 {
        None
    } else {
        Some(trim(output).to_owned())
    }
}

/// What the first step of resolving `command` does, with the cache `before` going in and
/// `after` coming out: with `invalidate`, the cache first loses what it held for the
/// command; what it then holds for it is the choice, and where it holds nothing, or
/// where there is no cache, the index is to be asked.
pub open spec fn begins(
    before: Option<Cache>,
    after: Option<Cache>,
    command: Seq<char>,
    invalidate: bool,
    out: Resolution,
) -> bool {
    match before {
        None => after is None && (out matches Resolution::Query(query) && query.is(
            "nix-locate"@,
            query_args(command),
            None,
        )),
        Some(cache) => {
            let left = if invalidate {
                cache@.remove(command)
            } else {
                cache@
            };
            &&& after matches Some(kept) && kept@ == left && kept.is_dirty() == (invalidate
                || cache.is_dirty())
            &&& if left.contains_key(command) {
                out matches Resolution::Resolved(entry) && entry@ == left[command]
            } else {
                out matches Resolution::Query(query) && query.is(
                    "nix-locate"@,
                    query_args(command),
                    None,
                )
            }
        },
    }
}

/// Begins to resolve `command`: answers from the cache where it can, and else names the
/// call with which the index is to be asked.
pub fn resolve(cache: &mut Option<Cache>, command: &str, invalidate: bool) -> (out: Resolution)
    ensures
        begins(*old(cache), *final(cache), command@, invalidate, out),
{
    match cache {
        Some(cache) => {
            if invalidate {
                cache.delete(command);
            }
            match cache.query(command) {
                Some(entry) => Resolution::Resolved(entry),
                None => Resolution::Query(index_query(command)),
            }
        },
        None => Resolution::Query(index_query(command)),
    }
}

/// What taking `derivation` as the choice for `command` does: the choice has no path
/// yet, and the cache, where there is one, holds it for the command afterwards.
pub open spec fn settles(
    before: Option<Cache>,
    after: Option<Cache>,
    command: Seq<char>,
    derivation: Seq<char>,
    out: Resolution,
) -> bool {
    &&& out matches Resolution::Resolved(entry) && entry@ == (derivation, None::<Seq<char>>)
    &&& held(after) == match held(before) {
        Some(choices) => Some(choices.insert(command, (derivation, None::<Seq<char>>))),
        None => None,
    }
    &&& unsaved(after) == (before is Some)
}

/// Takes `derivation` as the choice for `command`.
fn settle(cache: &mut Option<Cache>, command: &str, derivation: String) -> (out: Resolution)
    ensures
        settles(*old(cache), *final(cache), command@, derivation@, out),
{
    let kept = CacheEntry { derivation: derivation.clone(), path: None };
    remember(cache, command, kept);
    Resolution::Resolved(CacheEntry { derivation, path: None })
}

/// What the step after the index's answer does. A failed query, and an answer without
/// candidates, end the resolution and leave the cache as it was. One candidate is the
/// choice, and the picker is not asked. With several the picker is to be asked, and the
/// cache stays as it was until it has answered.
pub open spec fn continues(
    before: Option<Cache>,
    after: Option<Cache>,
    command: Seq<char>,
    outcome: Result<Vec<String>, IndexError>,
    out: Resolution,
) -> bool {
    match outcome {
        Err(e) => after == before && (out matches Resolution::Failed(ResolveError::Index(why))
            && why == e),
        Ok(found) => match selected(found.deep_view()) {
            None => after == before && out matches Resolution::Failed(
                ResolveError::Index(IndexError::NoMatch),
            ),
            Some(Ok(single)) => settles(before, after, command, single, out),
            Some(Err(input)) => after == before && (out matches Resolution::Pick(text) && text@
                == input),
        },
    }
}

/// Goes on resolving `command` with the outcome of the index query.
pub fn resolve_candidates(
    cache: &mut Option<Cache>,
    command: &str,
    outcome: Result<Vec<String>, IndexError>,
) -> (out: Resolution)
    ensures
        continues(*old(cache), *final(cache), command@, outcome, out),
{
    let found = match outcome {
        Err(e) => {
            return Resolution::Failed(ResolveError::Index(e));
        },
        Ok(found) => found,
    };
    match index_database_pick(&found) {
        Selection::Nothing => Resolution::Failed(ResolveError::Index(IndexError::NoMatch)),
        Selection::Single(derivation) => settle(cache, command, derivation),
        Selection::Ask(input) => Resolution::Pick(input),
    }
}

/// What the step after the picker does, `answer` being its output, or nothing where it
/// could not be started. A picker that did not start, and one that was left without a
/// choice, fail the resolution, and the cache is as it was; there is no other picker to
/// fall back on. Else what was picked is the choice.
pub open spec fn concludes(
    before: Option<Cache>,
    after: Option<Cache>,
    command: Seq<char>,
    answer: Option<Seq<char>>,
    out: Resolution,
) -> bool {
    match answer {
        None => after == before && out matches Resolution::Failed(ResolveError::PickerSpawn),
        Some(output) => match picked(output) {
            None => after == before && out matches Resolution::Failed(
                ResolveError::NothingPicked,
            ),
            Some(derivation) => settles(before, after, command, derivation, out),
        },
    }
}

/// The text of an answer as a sequence of characters.
pub open spec fn answered(answer: Option<&str>) -> Option<Seq<char>> {
    match answer {
        Some(output) => Some(output@),
        None => None,
    }
}

/// Ends resolving `command` with the output of the picker, or with nothing where the
/// picker could not be started.
pub fn resolve_picked(
    cache: &mut Option<Cache>,
    command: &str,
    answer: Option<&str>,
) -> (out: Resolution)
    ensures
        concludes(*old(cache), *final(cache), command@, answered(answer), out),
{
    let output = match answer {
        None => {
            return Resolution::Failed(ResolveError::PickerSpawn);
        },
        Some(output) => output,
    };
    match pick(output) {
        None => Resolution::Failed(ResolveError::NothingPicked),
        Some(derivation) => settle(cache, command, derivation),
    }
}

/// Once the cache was given a choice for a command, resolving that command answers with
/// that choice and asks neither the index nor the picker.
pub proof fn lemma_cached_choice_is_the_answer(
    updated: Cache,
    earlier: Map<Seq<char>, Choice>,
    command: Seq<char>,
    choice: Choice,
    after: Option<Cache>,
    out: Resolution,
)
    requires
        updated@ == earlier.insert(command, choice),
        begins(Some(updated), after, command, false, out),
    ensures
        out matches Resolution::Resolved(entry) && entry@ == choice,
{
}

/// Where the index names exactly one candidate, the picker is not asked: the candidate,
/// without its surrounding white space, is the choice, or, where nothing is left of it,
/// there is no match.
pub proof fn lemma_single_candidate_is_taken(
    before: Option<Cache>,
    after: Option<Cache>,
    command: Seq<char>,
    found: Vec<String>,
    out: Resolution,
)
    requires
        found@.len() == 1,
        continues(before, after, command, Ok(found), out),
    ensures
        !(out is Pick),
        trimmed(found@[0]@).len() > 0 ==> (out matches Resolution::Resolved(entry) && entry@ == (
            trimmed(found@[0]@),
            None::<Seq<char>>,
        )),
        trimmed(found@[0]@).len() == 0 ==> out matches Resolution::Failed(
            ResolveError::Index(IndexError::NoMatch),
        ),
{
    let lines = found.deep_view();
    assert(lines.drop_last() =~= Seq::<Seq<char>>::empty());
    assert(lines.last() == found@[0]@);
    assert(named(lines.drop_last()).len() == 0);
}

/// A choice that is made of what the index named is never empty, and has no white space
/// around it.
pub proof fn lemma_choice_from_the_index_is_named(
    before: Option<Cache>,
    after: Option<Cache>,
    command: Seq<char>,
    found: Vec<String>,
    out: Resolution,
)
    requires
        continues(before, after, command, Ok(found), out),
    ensures
        out matches Resolution::Resolved(entry) ==> entry@.0.len() > 0 && trimmed(entry@.0)
            == entry@.0,
{
    lemma_named_are_trimmed(found.deep_view());
}

/// Where the output of the index query lists exactly one candidate, the choice is that
/// candidate as the output lists it.
pub proof fn lemma_single_listed_candidate_is_kept(stdout: Seq<char>)
    requires
        candidates(stdout).len() == 1,
    ensures
        selected(candidates(stdout)) == Some(Ok::<Seq<char>, Seq<char>>(candidates(stdout)[0])),
        candidates(stdout)[0].len() > 0,
{
    lemma_candidates(stdout);
    lemma_named_twice(fields(trimmed(stdout), '\n'));
}

/// Where the output of the index query lists several candidates, the picker is given
/// them as the output lists them, one to a line: its input, cut at the line breaks, is
/// the list of the candidates.
pub proof fn lemma_picker_is_offered_the_candidates(stdout: Seq<char>)
    requires
        candidates(stdout).len() > 1,
    ensures
        selected(candidates(stdout)) == Some(
            Err::<Seq<char>, Seq<char>>(joined(candidates(stdout), "\n"@)),
        ),
        fields(joined(candidates(stdout), "\n"@), '\n') == candidates(stdout),
{
    let listed = candidates(stdout);
    lemma_candidates(stdout);
    lemma_named_twice(fields(trimmed(stdout), '\n'));
    reveal_strlit("\n");
    assert("\n"@ =~= seq!['\n']);
    assert forall|k: int, j: int|
        0 <= k < listed.len() && 0 <= j < listed[k].len() implies listed[k][j] != '\n' by {
        assert(well_named(listed[k]));
    }
    lemma_fields_of_joined(listed, '\n');
}

} // verus!
