//! `project_fetch`: bring owned projects' source repos up to date.
//!
//! A project may be named with or without the sigil, and a project named
//! twice is fetched once. What a fetch changed is counted from the
//! remote-tracking refs before and after it: a ref added, moved or pruned
//! each counts as one update. Running git is the caller's.

use vstd::prelude::*;
use crate::error::EngineError;
use crate::member::{is_name_error, is_project_name, member_parsed, MemberRef, ProjectName};
use crate::outcome::{Outcome, SkipReason};
use crate::text::{chars_of, same_chars};

verus! {

/// The name a fetch slot reads: `@name` or bare `name`, and nothing that is
/// not a project name.
pub open spec fn slot_name(spec: Seq<char>) -> Seq<char> {
    if spec.len() > 0 && spec[0] == '@' {
        spec.drop_first()
    } else {
        spec
    }
}

/// The object a ref points at, where the list has the ref.
pub open spec fn object_of(refs: Seq<(String, String)>, reference: Seq<char>) -> Option<Seq<char>>
    decreases refs.len(),
{
    if refs.len() == 0 {
        None
    } else if refs[0].0@ == reference {
        Some(refs[0].1@)
    } else {
        object_of(refs.drop_first(), reference)
    }
}

/// How many refs of `after` are new or point elsewhere than in `before`.
pub open spec fn moved_or_added(before: Seq<(String, String)>, after: Seq<(String, String)>) -> nat
    decreases after.len(),
{
    if after.len() == 0 {
        0
    } else {
        moved_or_added(before, after.drop_last()) + if object_of(before, after.last().0@) == Some(
            after.last().1@,
        ) {
            0nat
        } else {
            1nat
        }
    }
}

/// How many refs of `before` are gone from `after`.
pub open spec fn pruned(before: Seq<(String, String)>, after: Seq<(String, String)>) -> nat
    decreases before.len(),
{
    if before.len() == 0 {
        0
    } else {
        pruned(before.drop_last(), after) + if object_of(after, before.last().0@) is None {
            1nat
        } else {
            0nat
        }
    }
}

/// The project a fetch slot names, with or without the sigil.
pub fn named(spec: &str) -> (r: Result<ProjectName, EngineError>)
    ensures
        r is Ok <==> is_project_name(slot_name(spec@)),
        r matches Ok(n) ==> n@ == slot_name(spec@),
        r matches Err(e) ==> is_name_error(slot_name(spec@), e),
{
    match MemberRef::parse(spec) {
        Ok(MemberRef::Project(name)) => Ok(name),
        Ok(MemberRef::Repo(_)) => ProjectName::parse(spec),
        Err(e) => Err(e),
    }
}

/// Whether `name` is among the projects already chosen: a project named
/// twice is fetched once.
pub fn already_chosen(chosen: &[ProjectName], name: &ProjectName) -> (r: bool)
    ensures
        r == exists|i: int| 0 <= i < chosen@.len() && #[trigger] chosen@[i]@ == name@,
{
    let wanted = chars_of(name.as_str());
    let mut i: usize = 0;
    while i < chosen.len()
        invariant
            i <= chosen@.len(),
            wanted@ == name@,
            forall|j: int| 0 <= j < i ==> #[trigger] chosen@[j]@ != name@,
        decreases chosen.len() - i,
    {
        let candidate = chars_of(chosen[i].as_str());
        if same_chars(candidate.as_slice(), wanted.as_slice()) {
            assert(chosen@[i as int]@ == name@);
            return true;
        }
        i = i + 1;
    }
    false
}

fn object_in(refs: &[(String, String)], reference: &String) -> (r: Option<usize>)
    ensures
        match r {
            Some(i) => i < refs@.len() && object_of(refs@, reference@) == Some(refs@[i as int].1@),
            None => object_of(refs@, reference@) is None,
        },
{
    let wanted = chars_of(reference.as_str());
    let mut i: usize = 0;
    assert(refs@.subrange(0, refs@.len() as int) =~= refs@);
    while i < refs.len()
        invariant
            i <= refs@.len(),
            wanted@ == reference@,
            object_of(refs@, reference@) == object_of(refs@.subrange(i as int, refs@.len() as int), reference@),
        decreases refs.len() - i,
    {
        let ghost rest = refs@.subrange(i as int, refs@.len() as int);
        assert(rest[0] == refs@[i as int]);
        assert(rest.drop_first() =~= refs@.subrange(i as int + 1, refs@.len() as int));
        let name = chars_of(refs[i].0.as_str());
        if same_chars(name.as_slice(), wanted.as_slice()) {
            return Some(i);
        }
        i = i + 1;
    }
    None
}

/// How many remote-tracking refs a fetch changed: each ref added, moved or
/// pruned counts once.
pub fn changed(before: &[(String, String)], after: &[(String, String)]) -> (n: usize)
    requires
        before@.len() + after@.len() <= usize::MAX,
    ensures
        n == moved_or_added(before@, after@) + pruned(before@, after@),
{
    let mut moved: usize = 0;
    let mut i: usize = 0;
    assert(after@.subrange(0, 0) =~= Seq::<(String, String)>::empty());
    while i < after.len()
        invariant
            i <= after@.len(),
            moved == moved_or_added(before@, after@.subrange(0, i as int)),
            moved <= i,
            before@.len() + after@.len() <= usize::MAX,
        decreases after.len() - i,
    {
        let ghost upto = after@.subrange(0, i as int + 1);
        assert(upto.drop_last() =~= after@.subrange(0, i as int));
        assert(upto.last() == after@[i as int]);
        let same = match object_in(before, &after[i].0) {
            Some(k) => {
                let a = chars_of(before[k].1.as_str());
                let b = chars_of(after[i].1.as_str());
                same_chars(a.as_slice(), b.as_slice())
            },
            None => false,
        };
        if !same {
            moved = moved + 1;
        }
        i = i + 1;
    }
    assert(after@.subrange(0, after@.len() as int) =~= after@);
    let mut gone: usize = 0;
    let mut j: usize = 0;
    assert(before@.subrange(0, 0) =~= Seq::<(String, String)>::empty());
    while j < before.len()
        invariant
            j <= before@.len(),
            gone == pruned(before@.subrange(0, j as int), after@),
            gone <= j,
            moved <= after@.len(),
            moved == moved_or_added(before@, after@),
            before@.len() + after@.len() <= usize::MAX,
        decreases before.len() - j,
    {
        let ghost upto = before@.subrange(0, j as int + 1);
        assert(upto.drop_last() =~= before@.subrange(0, j as int));
        assert(upto.last() == before@[j as int]);
        if object_in(after, &before[j].0).is_none() {
            gone = gone + 1;
        }
        j = j + 1;
    }
    assert(before@.subrange(0, before@.len() as int) =~= before@);
    moved + gone
}

/// What one project's fetch comes to before git is asked: nothing more
/// where the run was interrupted, nothing to fetch for an adopted project.
pub fn fetch_step(interrupted: bool, owned: bool) -> (r: Option<SkipReason>)
    ensures
        interrupted ==> r == Some(SkipReason::Interrupted),
        !interrupted && !owned ==> r == Some(SkipReason::NothingToFetch),
        !interrupted && owned ==> r is None,
{
    if interrupted {
        Some(SkipReason::Interrupted)
    } else if !owned {
        Some(SkipReason::NothingToFetch)
    } else {
        None
    }
}

/// `s` with every repeat dropped, each item where it first appeared.
pub open spec fn first_appearances(s: Seq<Seq<char>>) -> Seq<Seq<char>>
    decreases s.len(),
{
    if s.len() == 0 {
        Seq::empty()
    } else {
        let r = first_appearances(s.drop_last());
        if r.contains(s.last()) {
            r
        } else {
            r.push(s.last())
        }
    }
}

/// The names of a sequence of project names.
pub open spec fn names_of(v: Seq<ProjectName>) -> Seq<Seq<char>> {
    Seq::new(v.len(), |i: int| v[i]@)
}

/// The names the slots read.
pub open spec fn slot_names(specs: Seq<String>) -> Seq<Seq<char>> {
    Seq::new(specs.len(), |i: int| slot_name(specs[i]@))
}

/// Whether a slot names a registered project.
pub open spec fn names_a_project(registered: Seq<Seq<char>>) -> spec_fn(String) -> bool {
    |spec: String| is_project_name(slot_name(spec@)) && registered.contains(slot_name(spec@))
}

/// The first slot that does not name a registered project.
pub open spec fn first_unknown(specs: Seq<String>, registered: Seq<Seq<char>>) -> Option<int>
    decreases specs.len(),
{
    if specs.len() == 0 {
        None
    } else {
        match first_unknown(specs.drop_last(), registered) {
            Some(i) => Some(i),
            None => if !names_a_project(registered)(specs.last()) {
                Some(specs.len() - 1)
            } else {
                None
            },
        }
    }
}

/// What `chosen` answers: every registered project where none is named;
/// otherwise the first slot that names no project stops the run, and the
/// projects named are taken once each, in the order first named.
pub open spec fn choice(specs: Seq<String>, registered: Seq<ProjectName>, r: Result<Vec<ProjectName>, EngineError>) -> bool {
    if specs.len() == 0 {
        r matches Ok(v) && names_of(v@) == names_of(registered)
    } else {
        match first_unknown(specs, names_of(registered)) {
            Some(i) => {
                let name = slot_name(specs[i]@);
                if !is_project_name(name) {
                    r matches Err(e) && is_name_error(name, e)
                } else {
                    r matches Err(EngineError::ProjectNotFound { name: n }) && n@ == name
                }
            },
            None => r matches Ok(v) && names_of(v@) == first_appearances(slot_names(specs)),
        }
    }
}

proof fn lemma_first_unknown_step(specs: Seq<String>, registered: Seq<Seq<char>>, i: int)
    requires
        0 <= i < specs.len(),
        first_unknown(specs.subrange(0, i), registered) is None,
    ensures
        !names_a_project(registered)(specs[i]) ==> first_unknown(specs, registered) == Some(i),
        names_a_project(registered)(specs[i]) ==> first_unknown(specs.subrange(0, i + 1), registered) is None,
{
    let next = specs.subrange(0, i + 1);
    assert(next.drop_last() =~= specs.subrange(0, i));
    if !names_a_project(registered)(specs[i]) {
        lemma_first_unknown_prefix(specs, registered, i + 1);
    }
}

proof fn lemma_first_unknown_prefix(specs: Seq<String>, registered: Seq<Seq<char>>, n: int)
    requires
        0 <= n <= specs.len(),
        first_unknown(specs.subrange(0, n), registered) is Some,
    ensures
        first_unknown(specs, registered) == first_unknown(specs.subrange(0, n), registered),
    decreases specs.len() - n,
{
    if n < specs.len() {
        assert(specs.subrange(0, n + 1).drop_last() =~= specs.subrange(0, n));
        lemma_first_unknown_prefix(specs, registered, n + 1);
    } else {
        assert(specs.subrange(0, n) =~= specs);
    }
}

/// Whether `name` is registered.
fn is_registered(registered: &Vec<ProjectName>, name: &ProjectName) -> (r: bool)
    ensures
        r == names_of(registered@).contains(name@),
{
    let r = already_chosen(registered.as_slice(), name);
    proof {
        if r {
            let i = choose|i: int| 0 <= i < registered@.len() && #[trigger] registered@[i]@ == name@;
            assert(names_of(registered@)[i] == name@);
        }
        if names_of(registered@).contains(name@) {
            let i = choose|i: int| 0 <= i < names_of(registered@).len() && names_of(registered@)[i] == name@;
            assert(registered@[i]@ == name@);
        }
    }
    r
}

/// Which projects a fetch is about: every registered one where none is
/// named; otherwise the ones named, once each. A slot that names no project
/// stops the run before anything is fetched, so a typo costs no round trip.
pub fn chosen(specs: &Vec<String>, registered: &Vec<ProjectName>) -> (r: Result<Vec<ProjectName>, EngineError>)
    ensures
        choice(specs@, registered@, r),
{
    if specs.len() == 0 {
        let mut all: Vec<ProjectName> = Vec::new();
        let mut k: usize = 0;
        while k < registered.len()
            invariant
                k <= registered@.len(),
                all@.len() == k,
                forall|j: int| 0 <= j < k ==> #[trigger] all@[j]@ == registered@[j]@,
            decreases registered.len() - k,
        {
            all.push(registered[k].clone());
            k = k + 1;
        }
        assert(names_of(all@) =~= names_of(registered@));
        return Ok(all);
    }
    let ghost reg = names_of(registered@);
    let mut picked: Vec<ProjectName> = Vec::new();
    let mut i: usize = 0;
    assert(specs@.subrange(0, 0) =~= Seq::<String>::empty());
    assert(slot_names(specs@.subrange(0, 0)) =~= Seq::<Seq<char>>::empty());
    while i < specs.len()
        invariant
            i <= specs@.len(),
            reg == names_of(registered@),
            first_unknown(specs@.subrange(0, i as int), reg) is None,
            names_of(picked@) == first_appearances(slot_names(specs@.subrange(0, i as int))),
        decreases specs.len() - i,
    {
        proof {
            lemma_first_unknown_step(specs@, reg, i as int);
        }
        let name = match named(specs[i].as_str()) {
            Ok(n) => n,
            Err(e) => {
                return Err(e);
            },
        };
        if !is_registered(registered, &name) {
            return Err(EngineError::ProjectNotFound { name: name.to_text() });
        }
        let ghost before = names_of(picked@);
        let ghost upto = slot_names(specs@.subrange(0, i as int + 1));
        assert(upto.drop_last() =~= slot_names(specs@.subrange(0, i as int)));
        assert(upto.last() == name@);
        let seen = already_chosen(picked.as_slice(), &name);
        proof {
            if seen {
                let j = choose|j: int| 0 <= j < picked@.len() && #[trigger] picked@[j]@ == name@;
                assert(before[j] == name@);
            }
            if before.contains(name@) {
                let j = choose|j: int| 0 <= j < before.len() && before[j] == name@;
                assert(picked@[j]@ == name@);
            }
        }
        if !seen {
            picked.push(name);
            assert(names_of(picked@) =~= before.push(upto.last()));
        }
        i = i + 1;
    }
    assert(specs@.subrange(0, specs@.len() as int) =~= specs@);
    Ok(picked)
}

/// A project named twice is fetched once: what is chosen from the names
/// given holds each of them, and none twice.
pub proof fn a_project_named_twice_is_fetched_once(s: Seq<Seq<char>>)
    ensures
        forall|i: int, j: int|
            0 <= i < j < first_appearances(s).len() ==> #[trigger] first_appearances(s)[i] != #[trigger] first_appearances(s)[j],
        forall|x: Seq<char>| #[trigger] first_appearances(s).contains(x) <==> s.contains(x),
    decreases s.len(),
{
    if s.len() > 0 {
        let rest = s.drop_last();
        let r = first_appearances(rest);
        a_project_named_twice_is_fetched_once(rest);
        assert(s =~= rest.push(s.last()));
        assert forall|x: Seq<char>| #[trigger] first_appearances(s).contains(x) <==> s.contains(x) by {
            if s.contains(x) && x != s.last() {
                let k = choose|k: int| 0 <= k < s.len() && s[k] == x;
                assert(rest[k] == x);
                assert(rest.contains(x));
                assert(r.contains(x));
                let m = choose|m: int| 0 <= m < r.len() && r[m] == x;
                assert(first_appearances(s)[m] == x);
            }
            if s.contains(x) && x == s.last() {
                if r.contains(x) {
                } else {
                    assert(first_appearances(s)[r.len() as int] == x);
                }
            }
            if first_appearances(s).contains(x) {
                let m = choose|m: int| 0 <= m < first_appearances(s).len() && first_appearances(s)[m] == x;
                if m < r.len() {
                    assert(r[m] == x);
                    assert(r.contains(x));
                    let k = choose|k: int| 0 <= k < rest.len() && rest[k] == x;
                    assert(s[k] == x);
                } else {
                    assert(s[s.len() - 1] == x);
                }
            }
        }
        assert forall|i: int, j: int|
            0 <= i < j < first_appearances(s).len() implies #[trigger] first_appearances(s)[i] != #[trigger] first_appearances(s)[j] by {
            if j >= r.len() {
                assert(first_appearances(s)[i] == r[i]);
                assert(!r.contains(s.last()));
            } else {
                assert(first_appearances(s)[i] == r[i]);
                assert(first_appearances(s)[j] == r[j]);
            }
        }
    }
}


/// What one project's fetch changed.
#[derive(Debug, Clone, Copy, PartialEq, Eq)]
pub struct Fetched {
    /// How many of origin's refs moved, appeared or went.
    pub updated: usize,
}

/// A fetch's row from how many refs it changed: nothing changed is a fetch
/// already done.
pub fn fetched(updated: usize) -> (o: Outcome<Fetched>)
    ensures
        updated == 0 ==> o is AlreadyDone,
        updated > 0 ==> o == Outcome::Completed(Fetched { updated }),
{
    if updated == 0 {
        Outcome::AlreadyDone
    } else {
        Outcome::Completed(Fetched { updated })
    }
}

} // verus!
