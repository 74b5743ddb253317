//! A plane directory: claimed by `create`, opened by everything after.
//!
//! The directory name is the plane's identity. A claim is one atomic
//! `mkdir`; a directory that is already there is classified, so a refusal
//! says what is in the way. Inside it, `.bitplane/` belongs to bitplane: the
//! incomplete latch and the lock sentinel live there.
//!
//! The `mkdir`s, reads and writes are the caller's; the paths, and what each
//! answer means, are here.

use vstd::prelude::*;
use crate::directories::Directories;
use crate::error::{EngineError, Occupant};
use crate::plane_file::PlaneFile;
use crate::wire::PlaneRef;
use crate::plane_id::{PlaneId, GENERATED_ID_ATTEMPTS};
use crate::source::kept_segments;
use crate::text::{chars_of, join_path, owned, path_join, push_str, split, split_on, string_of, views};

verus! {

/// bitplane's own directory at a plane directory's root.
pub const BITPLANE_DIR: &'static str = ".bitplane";

/// The incomplete latch, inside [`BITPLANE_DIR`].
pub const LATCH_NAME: &'static str = "incomplete";

/// The plane file, at the plane directory's root.
pub const PLANE_FILE: &'static str = "plane.toml";

/// What one `mkdir` of a plane directory answered.
#[derive(Debug, PartialEq, Eq)]
pub enum ClaimAttempt {
    /// The directory is new, and this run's.
    Made,
    /// Something was already there, and this is what.
    Taken(Occupant),
    /// The filesystem refused.
    Refused(EngineError),
}

/// A plane directory this run made and so owns.
#[derive(Debug, PartialEq, Eq)]
pub struct ClaimedPlane {
    id: PlaneId,
    path: String,
}

/// A plane directory that is already there.
#[derive(Debug, Clone, PartialEq, Eq)]
pub struct OpenPlane {
    id: String,
    path: String,
}

/// What is at a claimed path: a latch outranks a plane file, because the
/// plane never worked.
pub open spec fn occupant_of(latch_exists: bool, plane_file_exists: bool) -> Occupant {
    if latch_exists {
        Occupant::LatchedRemnant
    } else if plane_file_exists {
        Occupant::Plane
    } else {
        Occupant::ClaimWithoutPlaneFile
    }
}

/// `Path::file_name`: the last named segment, none where the path ends in
/// `..` or has no segment.
pub open spec fn file_name(path: Seq<char>) -> Seq<char> {
    let kept = kept_segments(split(path, '/'));
    if kept.len() == 0 || kept.last() == seq!['.', '.'] {
        Seq::empty()
    } else {
        kept.last()
    }
}

/// Where the latch of the plane at `plane` is.
pub open spec fn latch_at(plane: Seq<char>) -> Seq<char> {
    path_join(path_join(plane, ".bitplane"@), "incomplete"@)
}

/// What a sequence of generated claims comes to: the first that is made,
/// the first refusal, or, after every allowed attempt collided, the last id
/// tried, held by a plane.
pub open spec fn generated_outcome(tries: Seq<(PlaneId, ClaimAttempt)>, planes: Seq<char>) -> Option<Result<(Seq<char>, Seq<char>), EngineError>>
    decreases tries.len(),
{
    if tries.len() == 0 {
        None
    } else {
        match tries[0].1 {
            ClaimAttempt::Made => Some(Ok((tries[0].0@, path_join(planes, tries[0].0@)))),
            ClaimAttempt::Refused(e) => Some(Err(e)),
            ClaimAttempt::Taken(_) => generated_outcome(tries.drop_first(), planes),
        }
    }
}

impl ClaimedPlane {
    /// The claim an attempt at `id` made: the directory the id names, or the
    /// refusal that says what is already there.
    pub fn claim(directories: &Directories, id: PlaneId, attempt: ClaimAttempt) -> (r: Result<ClaimedPlane, EngineError>)
        ensures
            match attempt {
                ClaimAttempt::Made => r matches Ok(c) && c@ == (id@, path_join(directories@.0, id@)),
                ClaimAttempt::Taken(found) => r matches Err(EngineError::PlaneIdInUse { id: i, found: f })
                    && i@ == id@ && f == found,
                ClaimAttempt::Refused(e) => r == Err::<ClaimedPlane, EngineError>(e),
            },
    {
        match attempt {
            ClaimAttempt::Made => {
                let path = directories.plane(&id);
                Ok(ClaimedPlane { id, path })
            },
            ClaimAttempt::Taken(found) => Err(EngineError::PlaneIdInUse { id: id.to_text(), found }),
            ClaimAttempt::Refused(e) => Err(e),
        }
    }

    /// Whether a generated claim that has collided `collisions` times may try
    /// another id. Needing more than five means something other than
    /// collision is wrong.
    pub fn may_retry(collisions: usize) -> (r: bool)
        ensures
            r == (collisions < 5),
    {
        collisions < GENERATED_ID_ATTEMPTS
    }

    /// What a run of generated claims comes to, each attempt in the order it
    /// was made: the first directory made, the first refusal, or, where
    /// every attempt collided, the last id tried, in use by a plane.
    pub fn claim_generated_by(directories: &Directories, tries: Vec<(PlaneId, ClaimAttempt)>) -> (r: Result<ClaimedPlane, EngineError>)
        ensures
            match generated_outcome(tries@, directories@.0) {
                Some(Ok(c)) => r matches Ok(p) && p@ == c,
                Some(Err(e)) => r == Err::<ClaimedPlane, EngineError>(e),
                None => r matches Err(EngineError::PlaneIdInUse { id, found: Occupant::Plane }) && (if tries@.len()
                    == 0 {
                    id@ == Seq::<char>::empty()
                } else {
                    id@ == tries@.last().0@
                }),
            },
    {
        let mut last: String = String::new();
        let ghost all = tries@;
        let mut rest = tries;
        let mut taken: Vec<(PlaneId, ClaimAttempt)> = Vec::new();
        proof {
            reveal_with_fuel(generated_outcome, 1);
        }
        let ghost mut done: int = 0;
        assert(all.subrange(0, all.len() as int) =~= all);
        while rest.len() > 0
            invariant
                0 <= done <= all.len(),
                all == tries@,
                rest@ == all.subrange(done, all.len() as int),
                generated_outcome(all, directories@.0) == generated_outcome(rest@, directories@.0),
                done == 0 ==> last@ == Seq::<char>::empty(),
                done > 0 ==> last@ == all[done - 1].0@,
            decreases rest.len(),
        {
            let ghost before = rest@;
            let pair = rest.remove(0);
            assert(pair == before[0]);
            let (id, attempt) = pair;
            assert(generated_outcome(before, directories@.0) == match before[0].1 {
                ClaimAttempt::Made => Some(Ok((before[0].0@, path_join(directories@.0, before[0].0@)))),
                ClaimAttempt::Refused(e) => Some(Err(e)),
                ClaimAttempt::Taken(_) => generated_outcome(before.drop_first(), directories@.0),
            });
            assert(before.drop_first() =~= rest@);
            assert(rest@ =~= all.subrange(done + 1, all.len() as int));
            match attempt {
                ClaimAttempt::Made => {
                    let path = directories.plane(&id);
                    return Ok(ClaimedPlane { id, path });
                },
                ClaimAttempt::Refused(e) => {
                    return Err(e);
                },
                ClaimAttempt::Taken(found) => {
                    last = id.to_text();
                    proof {
                        done = done + 1;
                    }
                },
            }
        }
        Err(EngineError::PlaneIdInUse { id: last, found: Occupant::Plane })
    }

    pub fn id(&self) -> (id: &PlaneId)
        ensures
            id@ == self@.0,
    {
        &self.id
    }

    pub fn path(&self) -> (p: &str)
        ensures
            p@ == self@.1,
    {
        self.path.as_str()
    }

    /// Where the latch goes.
    pub fn latch_path(&self) -> (p: String)
        ensures
            p@ == latch_at(self@.1),
    {
        latch_path(self.path.as_str())
    }

    /// Where the plane file goes.
    pub fn plane_file_path(&self) -> (p: String)
        ensures
            p@ == path_join(self@.1, "plane.toml"@),
    {
        join_path(self.path.as_str(), PLANE_FILE)
    }
}

impl View for ClaimedPlane {
    /// The id and the directory.
    type V = (Seq<char>, Seq<char>);

    closed spec fn view(&self) -> (Seq<char>, Seq<char>) {
        (self.id@, self.path@)
    }
}

impl View for OpenPlane {
    /// The id and the directory.
    type V = (Seq<char>, Seq<char>);

    closed spec fn view(&self) -> (Seq<char>, Seq<char>) {
        (self.id@, self.path@)
    }
}

fn latch_path(plane: &str) -> (p: String)
    ensures
        p@ == latch_at(plane@),
{
    let dir = join_path(plane, BITPLANE_DIR);
    join_path(dir.as_str(), LATCH_NAME)
}

/// What is at a claimed path, from whether the latch and the plane file
/// are there.
pub fn classify(latch_exists: bool, plane_file_exists: bool) -> (o: Occupant)
    ensures
        o == occupant_of(latch_exists, plane_file_exists),
{
    if latch_exists {
        Occupant::LatchedRemnant
    } else if plane_file_exists {
        Occupant::Plane
    } else {
        Occupant::ClaimWithoutPlaneFile
    }
}

/// The latch's contents: the moment of the claim, and nothing else.
pub fn latch_text(now: &str) -> (s: String)
    ensures
        s@ == now@ + "\n"@,
{
    let mut s = owned(now);
    push_str(&mut s, "\n");
    s
}

impl OpenPlane {
    /// The plane at `path`, its id taken from the directory's own name.
    pub fn at(path: &str) -> (p: OpenPlane)
        ensures
            p@ == (file_name(path@), path@),
    {
        let v = chars_of(path);
        let pieces = split_on(v.as_slice(), '/');
        let mut last: Vec<char> = Vec::new();
        let mut found = false;
        let mut i: usize = 0;
        assert(views(pieces@).subrange(0, 0) =~= Seq::<Seq<char>>::empty());
        while i < pieces.len()
            invariant
                i <= pieces@.len(),
                found == (kept_segments(views(pieces@).subrange(0, i as int)).len() > 0),
                found ==> last@ == kept_segments(views(pieces@).subrange(0, i as int)).last(),
            decreases pieces.len() - i,
        {
            let ghost upto = views(pieces@).subrange(0, i as int + 1);
            assert(upto.drop_last() =~= views(pieces@).subrange(0, i as int));
            assert(upto.last() == pieces@[i as int]@);
            let piece = &pieces[i];
            let keep = piece.len() > 0 && !(piece.len() == 1 && piece[0] == '.');
            proof {
                if piece@ == seq!['.'] {
                    assert(piece@[0] == '.');
                }
                if piece@.len() == 1 && piece@[0] == '.' {
                    assert(piece@ =~= seq!['.']);
                }
            }
            if keep {
                last = piece.clone();
                found = true;
            }
            i = i + 1;
        }
        assert(views(pieces@).subrange(0, pieces@.len() as int) =~= views(pieces@));
        let parent = last.len() == 2 && last[0] == '.' && last[1] == '.';
        proof {
            if found && last@ == seq!['.', '.'] {
                assert(last@[0] == '.' && last@[1] == '.');
            }
            if last@.len() == 2 && last@[0] == '.' && last@[1] == '.' {
                assert(last@ =~= seq!['.', '.']);
            }
        }
        let id = if !found || parent {
            String::new()
        } else {
            string_of(last.as_slice())
        };
        OpenPlane { id, path: owned(path) }
    }

    pub fn id(&self) -> (s: &str)
        ensures
            s@ == self@.0,
    {
        self.id.as_str()
    }

    pub fn path(&self) -> (s: &str)
        ensures
            s@ == self@.1,
    {
        self.path.as_str()
    }

    /// Where its plane file is.
    pub fn plane_file_path(&self) -> (p: String)
        ensures
            p@ == path_join(self@.1, "plane.toml"@),
    {
        join_path(self.path.as_str(), PLANE_FILE)
    }

    /// Where its latch would be.
    pub fn latch_path(&self) -> (p: String)
        ensures
            p@ == latch_at(self@.1),
    {
        latch_path(self.path.as_str())
    }
}


/// The plane an id names, at `directory`: there only where the directory
/// holds a plane file.
pub fn plane_named(id: &str, directory: &str, has_plane_file: bool) -> (r: Result<OpenPlane, EngineError>)
    ensures
        has_plane_file ==> (r matches Ok(p) && p@ == (file_name(directory@), directory@)),
        !has_plane_file ==> (r matches Err(EngineError::PlaneNotFound { sought: PlaneRef::Id { id: x } }) && x@
            == id@),
{
    if has_plane_file {
        Ok(OpenPlane::at(directory))
    } else {
        Err(EngineError::PlaneNotFound { sought: PlaneRef::Id { id: owned(id) } })
    }
}

/// The first of `holds` that is true, where one is.
pub open spec fn first_holding(holds: Seq<bool>) -> Option<int>
    decreases holds.len(),
{
    if holds.len() == 0 {
        None
    } else if holds[0] {
        Some(0)
    } else {
        match first_holding(holds.drop_first()) {
            Some(i) => Some(i + 1),
            None => None,
        }
    }
}

/// The innermost plane containing `from`: the first of its directories,
/// innermost first, that holds a plane file; none is a plane not found.
pub fn innermost_plane(from: &str, directories: &Vec<String>, has_plane_file: &Vec<bool>) -> (r: Result<
    OpenPlane,
    EngineError,
>)
    requires
        directories@.len() == has_plane_file@.len(),
    ensures
        match first_holding(has_plane_file@) {
            Some(i) => r matches Ok(p) && p@ == (file_name(directories@[i]@), directories@[i]@),
            None => r matches Err(EngineError::PlaneNotFound { sought: PlaneRef::ContainingPath { path } })
                && path@ == from@,
        },
{
    let mut i: usize = 0;
    assert(has_plane_file@.subrange(0, has_plane_file@.len() as int) =~= has_plane_file@);
    while i < has_plane_file.len()
        invariant
            i <= has_plane_file@.len(),
            directories@.len() == has_plane_file@.len(),
            first_holding(has_plane_file@) == match first_holding(
                has_plane_file@.subrange(i as int, has_plane_file@.len() as int),
            ) {
                Some(k) => Some(k + i),
                None => None,
            },
        decreases has_plane_file.len() - i,
    {
        let ghost rest = has_plane_file@.subrange(i as int, has_plane_file@.len() as int);
        assert(rest[0] == has_plane_file@[i as int]);
        assert(rest.drop_first() =~= has_plane_file@.subrange(i as int + 1, has_plane_file@.len() as int));
        if has_plane_file[i] {
            return Ok(OpenPlane::at(directories[i].as_str()));
        }
        i = i + 1;
    }
    assert(has_plane_file@.subrange(i as int, has_plane_file@.len() as int) =~= Seq::<bool>::empty());
    Err(EngineError::PlaneNotFound { sought: PlaneRef::ContainingPath { path: owned(from) } })
}

/// A plane that is standing: neither latched, as a create or add that never
/// finished leaves it, nor without its plane file. Its membership is the
/// answer; anything else is a plane incomplete.
pub fn standing(id: &str, latched: bool, file: Option<PlaneFile>) -> (r: Result<PlaneFile, EngineError>)
    ensures
        (latched || file is None) ==> (r matches Err(EngineError::PlaneIncomplete { id: x }) && x@ == id@),
        (!latched && file is Some) ==> r == Ok::<PlaneFile, EngineError>(file->0),
{
    if latched {
        return Err(EngineError::PlaneIncomplete { id: owned(id) });
    }
    match file {
        Some(f) => Ok(f),
        None => Err(EngineError::PlaneIncomplete { id: owned(id) }),
    }
}

} // verus!
