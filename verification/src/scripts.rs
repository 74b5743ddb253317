//! A project's scripts: named commands bound to points in a worktree's life.
//!
//! A script's name becomes part of its log's file name, so it is held to the
//! plane-id character set and never trusted into a path otherwise.

use vstd::prelude::*;
use crate::text::{chars_of, is_on_charset, on_charset, owned};

verus! {

/// A script's name: `[a-z0-9][a-z0-9._-]*`.
#[derive(Debug, PartialEq, Eq, PartialOrd, Ord, Hash)]
pub struct ScriptName {
    name: String,
}

/// Why a string is not a script name.
#[derive(Debug, Clone, Copy, PartialEq, Eq, Structural)]
pub struct InvalidScriptName;

/// A point in a worktree's life a script can be bound to.
#[derive(Debug, Clone, Copy, PartialEq, Eq, Structural)]
pub enum ScriptPoint {
    /// Just after `create` or `add` made the worktree.
    PostWorktreeCreate,
    /// Just before `destroy` or `rm` takes it away.
    PreWorktreeRemove,
}

/// What a script runs.
#[derive(Debug, Clone, PartialEq, Eq)]
pub enum ScriptCommand {
    /// A program and its arguments, run without a shell.
    Argv(Vec<String>),
    /// One line handed to `sh -c`.
    Shell(String),
}

/// One `[scripts.<name>]` table.
#[derive(Debug, Clone, PartialEq, Eq)]
pub struct Script {
    pub name: ScriptName,
    pub command: ScriptCommand,
    /// The points whose toggle is on, in the order [`ScriptPoint::all`]
    /// names them.
    pub points: Vec<ScriptPoint>,
}

impl View for ScriptName {
    type V = Seq<char>;

    closed spec fn view(&self) -> Seq<char> {
        self.name@
    }
}

impl Clone for ScriptName {
    fn clone(&self) -> (r: ScriptName)
        ensures
            r@ == self@,
    {
        proof {
            use_type_invariant(self);
        }
        ScriptName { name: self.name.clone() }
    }
}

impl ScriptName {
    /// A name held here is on the charset.
    #[verifier::type_invariant]
    spec fn on_the_charset(self) -> bool {
        on_charset(self.name@)
    }

    /// Checks the charset.
    pub fn parse(name: &str) -> (r: Result<ScriptName, InvalidScriptName>)
        ensures
            r is Ok <==> on_charset(name@),
            r matches Ok(n) ==> n@ == name@,
    {
        let v = chars_of(name);
        if is_on_charset(&v) {
            Ok(ScriptName { name: owned(name) })
        } else {
            Err(InvalidScriptName)
        }
    }

    pub fn as_str(&self) -> (s: &str)
        ensures
            s@ == self@,
            on_charset(self@),
    {
        proof {
            use_type_invariant(self);
        }
        self.name.as_str()
    }

    /// The owned text of this name.
    pub fn to_text(&self) -> (s: String)
        ensures
            s@ == self@,
    {
        self.name.clone()
    }
}

impl InvalidScriptName {
    /// The clause that follows the offending name in a message.
    pub fn reason(self) -> (s: &'static str)
        ensures
            s@ == "is not a valid script name"@,
    {
        "is not a valid script name"
    }
}

/// The key that toggles a point in a script's table.
pub open spec fn point_key(p: ScriptPoint) -> Seq<char> {
    match p {
        ScriptPoint::PostWorktreeCreate => "post_worktree_create"@,
        ScriptPoint::PreWorktreeRemove => "pre_worktree_remove"@,
    }
}

impl ScriptPoint {
    /// Every point, in the order a script's points are listed.
    pub fn all() -> (ps: [ScriptPoint; 2])
        ensures
            ps@ == seq![ScriptPoint::PostWorktreeCreate, ScriptPoint::PreWorktreeRemove],
    {
        [ScriptPoint::PostWorktreeCreate, ScriptPoint::PreWorktreeRemove]
    }

    /// The toggle's key.
    pub fn key(self) -> (s: &'static str)
        ensures
            s@ == point_key(self),
    {
        match self {
            ScriptPoint::PostWorktreeCreate => "post_worktree_create",
            ScriptPoint::PreWorktreeRemove => "pre_worktree_remove",
        }
    }
}

} // verus!
